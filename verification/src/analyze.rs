//! Aggregation reports and the full-tree dump: their requests, their errors, and the decisions
//! the traversals take at each node.
//!
//! The traversals themselves run over a finished solve's game; what they decide — which node
//! kinds a report accepts, whether a chance node may be descended, which cards a chance node's
//! children are, whether a replayed line is legal, when a dump has outgrown its byte budget — is
//! stated and proved here over the plain facts the game reports.
use vstd::prelude::*;

use crate::engine::{card_bit, BoardState, EngineError, WalkStep};
use crate::jobs::{JobError, JobId, JobKind};
use crate::ledger::{analysis_source_check, queued_view, JobBook};
use crate::spot::SpotError;
use crate::text::{append_decimal, decimal};

verus! {

/// Stamped into every report result and dump header, so a host can tell shapes apart later.
pub const FORMAT_VERSION: u32 = 1;

/// What a `report` job computes.
#[derive(Debug, Clone, PartialEq, Eq)]
pub struct ReportSpec {
    /// Source solve job (a `solve` or `open` job).
    pub job_id: JobId,
    /// Base node, node-command convention: chance step = dealt card id 0–51.
    pub history: Vec<usize>,
    pub kind: ReportKind,
    /// `runouts` only: decision-action indices replayed after each dealt card before the row is
    /// read. May not contain chance steps.
    pub line: Vec<usize>,
    /// `runouts`/`lines`: add a per-category breakdown to every row.
    pub categories: bool,
}

/// The three report shapes.
#[derive(Debug, Clone, Copy, PartialEq, Eq)]
pub enum ReportKind {
    /// One row per dealable card at a chance node.
    Runouts,
    /// One row per same-street decision node under a base node.
    Lines,
    /// One decision node, partitioned by hand category.
    Categories,
}

/// Which per-hand arrays a dump writes at each decision node.
#[derive(Debug, Clone, Copy, PartialEq, Eq)]
pub struct DumpInclude {
    pub strategy: bool,
    /// Per-hand EVs *and* the per-action `evDetail` matrix.
    pub ev: bool,
    pub equity: bool,
    pub weights: bool,
}

impl Default for DumpInclude {
    /// The strategy only.
    fn default() -> (d: Self)
        ensures
            d == (DumpInclude { strategy: true, ev: false, equity: false, weights: false }),
    {
        DumpInclude { strategy: true, ev: false, equity: false, weights: false }
    }
}

/// What a `dump` job writes.
#[derive(Debug, Clone, PartialEq, Eq)]
pub struct DumpSpec {
    /// Source solve job.
    pub job_id: JobId,
    /// Output file. Created/truncated. JSON Lines; one zstd frame when `compress`.
    pub path: String,
    /// Subtree root; empty = whole tree.
    pub history: Vec<usize>,
    /// Do not descend a chance node once the board holds this many cards.
    /// 3 = flop actions only, 4 = +turn, 5 = everything. Default 5.
    pub max_board_cards: u8,
    pub arrays: DumpInclude,
    /// Abort (the job fails, a partial file is left) past this many output bytes, counted
    /// before compression. `None` = unbounded.
    pub max_bytes: Option<u64>,
    pub compress: bool,
    /// zstd level when `compress`; defaults like a spot's compression level (3).
    pub compression_level: Option<i32>,
}

/// A dump descends every street unless told otherwise.
pub fn default_max_board_cards() -> (n: u8)
    ensures
        n == 5,
{
    5
}

/// A simplification stays on the street it starts on unless told otherwise.
pub fn default_simplify_board_cards() -> (n: u8)
    ensures
        n == 3,
{
    3
}

/// A simplification rounds to halves unless told otherwise.
pub fn default_grid() -> (n: u32)
    ensures
        n == 2,
{
    2
}

/// Why an analysis could not run to completion. The worker maps [`AnalyzeError::Cancelled`] to
/// a cancelled phase and everything else to a failed one.
#[derive(Debug, Clone, PartialEq, Eq)]
pub enum AnalyzeError {
    /// The base history does not describe a node.
    Walk(usize, String),
    /// The base reaches the wrong kind of node for this report.
    BadBase { needed: &'static str, actual: &'static str },
    /// A `runouts` line contains a chance step.
    LineCrossesChance,
    /// The source file was saved with reduced storage and the street below is not present.
    StorageBoundary,
    /// The dump outgrew its `maxBytes`.
    TooBig { bytes: u64, limit: u64 },
    /// The output file could not be written.
    Io(String),
    /// The job's cancel flag was set.
    Cancelled,
}

/// The human-readable message of an analysis error.
pub open spec fn analyze_error_text(e: AnalyzeError) -> Seq<char> {
    match e {
        AnalyzeError::Walk(depth, detail) => "history step "@ + decimal(depth as nat)
            + " does not describe a node: "@ + detail@,
        AnalyzeError::BadBase { needed, actual } => "the base history reaches a "@ + actual@
            + " node, but this report needs a "@ + needed@ + " node"@,
        AnalyzeError::LineCrossesChance =>
            "`line` reaches a chance node; lines may only contain decision-action indices"@,
        AnalyzeError::StorageBoundary =>
            "the node sits at this file's storage boundary; the street below was not saved"@,
        AnalyzeError::TooBig { bytes, limit } => "the dump reached "@ + decimal(bytes as nat)
            + " bytes, past the maxBytes limit of "@ + decimal(limit as nat)
            + "; a partial file was left"@,
        AnalyzeError::Io(detail) => "could not write the dump: "@ + detail@,
        AnalyzeError::Cancelled => "cancelled"@,
    }
}

/// What a refused replay step says about itself: the card or action index, and what the node
/// offered instead.
pub open spec fn walk_step_text(step: WalkStep) -> Seq<char> {
    (if step.is_chance {
        "card "@
    } else {
        "action index "@
    }) + decimal(step.index as nat) + " is not available at that node, which offers "@
        + decimal(step.available as nat)
}

/// `"action index {index}"` followed by `tail`.
fn action_index_text(index: usize, tail: &str) -> (s: String)
    ensures
        s@ == "action index "@ + decimal(index as nat) + tail@,
{
    let mut s = String::from_str("action index ");
    append_decimal(&mut s, index as u64);
    s.append(tail);
    s
}

impl AnalyzeError {
    /// The message a host shows for this error.
    pub fn message(&self) -> (s: String)
        ensures
            s@ == analyze_error_text(*self),
    {
        match self {
            AnalyzeError::Walk(depth, detail) => {
                let mut s = String::from_str("history step ");
                append_decimal(&mut s, *depth as u64);
                s.append(" does not describe a node: ");
                s.append(detail.as_str());
                s
            },
            AnalyzeError::BadBase { needed, actual } => {
                let mut s = String::from_str("the base history reaches a ");
                s.append(actual);
                s.append(" node, but this report needs a ");
                s.append(needed);
                s.append(" node");
                s
            },
            AnalyzeError::LineCrossesChance => String::from_str(
                "`line` reaches a chance node; lines may only contain decision-action indices",
            ),
            AnalyzeError::StorageBoundary => String::from_str(
                "the node sits at this file's storage boundary; the street below was not saved",
            ),
            AnalyzeError::TooBig { bytes, limit } => {
                let mut s = String::from_str("the dump reached ");
                append_decimal(&mut s, *bytes);
                s.append(" bytes, past the maxBytes limit of ");
                append_decimal(&mut s, *limit);
                s.append("; a partial file was left");
                s
            },
            AnalyzeError::Io(detail) => {
                let mut s = String::from_str("could not write the dump: ");
                s.append(detail.as_str());
                s
            },
            AnalyzeError::Cancelled => String::from_str("cancelled"),
        }
    }

    /// A refused replay step of the base history, as the analysis reports it.
    pub fn from_walk_step(step: WalkStep) -> (e: AnalyzeError)
        ensures
            e matches AnalyzeError::Walk(depth, detail) && depth == step.depth && detail@
                == walk_step_text(step),
    {
        let mut s = if step.is_chance {
            String::from_str("card ")
        } else {
            String::from_str("action index ")
        };
        append_decimal(&mut s, step.index as u64);
        s.append(" is not available at that node, which offers ");
        append_decimal(&mut s, step.available as u64);
        AnalyzeError::Walk(step.depth, s)
    }
}

/// What a finished dump reports back.
#[derive(Debug, Clone, Copy, PartialEq, Eq)]
pub struct DumpSummary {
    pub nodes: u64,
    pub decision_nodes: u64,
    pub chance_nodes: u64,
    pub terminal_nodes: u64,
    /// Whether any chance node was left undescended (street bound or storage boundary).
    pub truncated: bool,
    /// Bytes that reached the file, compression included.
    pub bytes_written: u64,
}

/// The name of a node's kind, as error messages print it.
pub open spec fn node_kind_name(is_terminal: bool, is_chance: bool) -> Seq<char> {
    if is_terminal {
        "terminal"@
    } else if is_chance {
        "chance"@
    } else {
        "decision"@
    }
}

/// The node kind of a position, for error messages.
pub fn node_kind(is_terminal: bool, is_chance: bool) -> (s: &'static str)
    ensures
        s@ == node_kind_name(is_terminal, is_chance),
{
    if is_terminal {
        "terminal"
    } else if is_chance {
        "chance"
    } else {
        "decision"
    }
}

/// Whether a chance node may be descended in a game stored in `mode`, with `board_len` cards
/// already dealt: a flop-storage file keeps nothing below the flop, and a turn-storage file
/// nothing below the turn.
pub open spec fn descendable(mode: BoardState, board_len: int) -> bool {
    mode != BoardState::Flop && (board_len == 3 || mode != BoardState::Turn)
}

/// Whether the current *chance* node may be descended — the engine would panic past the
/// boundary of a reduced-storage file.
pub fn may_descend(mode: BoardState, board_len: usize) -> (r: bool)
    ensures
        r == descendable(mode, board_len as int),
{
    match mode {
        BoardState::Flop => false,
        BoardState::Turn => board_len == 3,
        BoardState::River => true,
    }
}

/// Whether a traversal bounded at `max_board_cards` goes below a chance node with `board_len`
/// cards dealt. When it does not, the output is truncated there.
pub fn descends_chance(mode: BoardState, board_len: usize, max_board_cards: u8) -> (r: bool)
    ensures
        r == (board_len < max_board_cards && descendable(mode, board_len as int)),
{
    board_len < max_board_cards as usize && may_descend(mode, board_len)
}

/// The street a chance node deals: the turn below a three-card board, the river otherwise.
pub fn dealt_street(board_len: usize) -> (s: &'static str)
    ensures
        board_len == 3 ==> s@ == "turn"@,
        board_len != 3 ==> s@ == "river"@,
{
    if board_len == 3 {
        "turn"
    } else {
        "river"
    }
}

/// What one step of a `runouts` line finds at the node it is taken at.
pub open spec fn line_step_result(
    depth: usize,
    step: usize,
    is_chance: bool,
    is_terminal: bool,
    available: usize,
) -> Option<(int, Seq<char>)> {
    if is_chance {
        Some((-1, Seq::empty()))
    } else if is_terminal {
        Some((depth as int, "action index "@ + decimal(step as nat) + " plays past a terminal node"@))
    } else if step >= available {
        Some(
            (
                depth as int,
                "action index "@ + decimal(step as nat)
                    + " is not available at that node, which offers "@ + decimal(available as nat),
            ),
        )
    } else {
        None
    }
}

/// Validate one step of a `runouts` line below a freshly dealt card: lines may not cross a
/// chance node, play past a terminal, or name an action the node does not offer.
pub fn check_line_step(
    depth: usize,
    step: usize,
    is_chance: bool,
    is_terminal: bool,
    available: usize,
) -> (r: Result<(), AnalyzeError>)
    ensures
        is_chance ==> r == Err::<(), AnalyzeError>(AnalyzeError::LineCrossesChance),
        !is_chance && is_terminal ==> (r matches Err(AnalyzeError::Walk(d, m)) && d == depth && m@
            == "action index "@ + decimal(step as nat) + " plays past a terminal node"@),
        !is_chance && !is_terminal && step >= available ==> (r matches Err(
            AnalyzeError::Walk(d, m),
        ) && d == depth && m@ == "action index "@ + decimal(step as nat)
            + " is not available at that node, which offers "@ + decimal(available as nat)),
        r is Ok <==> (!is_chance && !is_terminal && step < available),
{
    if is_chance {
        return Err(AnalyzeError::LineCrossesChance);
    }
    if is_terminal {
        return Err(AnalyzeError::Walk(depth, action_index_text(step, " plays past a terminal node")));
    }
    if step >= available {
        let mut m = action_index_text(step, " is not available at that node, which offers ");
        append_decimal(&mut m, available as u64);
        return Err(AnalyzeError::Walk(depth, m));
    }
    Ok(())
}

/// The pre-compression byte meter after one more line of `line_len` bytes: the dump fails the
/// moment it passes its budget, so the abort cannot hide behind buffering.
pub open spec fn metered(written: u64, line_len: u64, max_bytes: Option<u64>) -> Result<
    u64,
    AnalyzeError,
> {
    let total = written + line_len;
    if max_bytes is Some && total > max_bytes->0 {
        Err(AnalyzeError::TooBig { bytes: total as u64, limit: max_bytes->0 })
    } else {
        Ok(total as u64)
    }
}

/// Count one more written line against the dump's `maxBytes`.
pub fn meter_line(written: u64, line_len: u64, max_bytes: Option<u64>) -> (r: Result<
    u64,
    AnalyzeError,
>)
    requires
        written + line_len <= u64::MAX,
    ensures
        r == metered(written, line_len, max_bytes),
{
    let total = written + line_len;
    match max_bytes {
        Some(limit) => {
            if total > limit {
                return Err(AnalyzeError::TooBig { bytes: total, limit });
            }
        },
        None => {},
    }
    Ok(total)
}

/// How often `v` occurs in `s`.
pub open spec fn count_of(s: Seq<u8>, v: u8) -> nat
    decreases s.len(),
{
    if s.len() == 0 {
        0
    } else {
        count_of(s.drop_last(), v) + if s.last() == v {
            1nat
        } else {
            0nat
        }
    }
}

/// Whether a sequence is in ascending order.
pub open spec fn ascending(s: Seq<u8>) -> bool {
    forall|i: int, j: int| 0 <= i <= j < s.len() ==> s[i] <= s[j]
}

/// The cards below `n` that a mask marks dealable, ascending.
pub open spec fn dealable_below(mask: u64, n: int) -> Seq<u8>
    decreases n,
{
    if n <= 0 {
        Seq::empty()
    } else if card_bit(mask, n - 1) {
        dealable_below(mask, n - 1).push((n - 1) as u8)
    } else {
        dealable_below(mask, n - 1)
    }
}

/// Whether every representative a chance node lists is itself dealable.
pub open spec fn all_dealable(mask: u64, reps: Seq<u8>) -> bool {
    forall|i: int| 0 <= i < reps.len() ==> card_bit(mask, reps[i] as int)
}

/// The children of a chance node to descend, ascending card id.
///
/// The storage representatives are the chance node's listed children. If every one of them is
/// itself dealable, storage and actual coordinates agree, and playing exactly those cards
/// reproduces the engine's representative-only traversal: they come back sorted. If any is not
/// dealable, a suit swap is active above the node — every dealable card comes back instead:
/// correct, merely undeduplicated.
pub fn chance_children(mask: u64, representatives: &[u8]) -> (r: Vec<u8>)
    requires
        forall|i: int| 0 <= i < representatives@.len() ==> representatives@[i] < 64,
    ensures
        all_dealable(mask, representatives@) ==> ascending(r@) && forall|v: u8|
            count_of(r@, v) == count_of(representatives@, v),
        !all_dealable(mask, representatives@) ==> r@ == dealable_below(mask, 52),
{
    let mut every = true;
    let mut i: usize = 0;
    while i < representatives.len()
        invariant
            i <= representatives@.len(),
            forall|k: int| 0 <= k < representatives@.len() ==> representatives@[k] < 64,
            every == (forall|k: int| 0 <= k < i ==> card_bit(mask, representatives@[k] as int)),
        decreases representatives.len() - i,
    {
        let c = representatives[i];
        if (mask >> (c as u64)) & 1 != 1 {
            every = false;
        }
        i += 1;
    }
    if every {
        sorted_by_count(representatives)
    } else {
        dealable_cards(mask)
    }
}

/// Every card below 52 the mask marks dealable, ascending.
fn dealable_cards(mask: u64) -> (r: Vec<u8>)
    ensures
        r@ == dealable_below(mask, 52),
{
    let mut out: Vec<u8> = Vec::new();
    let mut c: u8 = 0;
    while c < 52
        invariant
            c <= 52,
            out@ == dealable_below(mask, c as int),
        decreases 52 - c,
    {
        if (mask >> (c as u64)) & 1 == 1 {
            out.push(c);
        }
        c += 1;
    }
    out
}

/// `s` with one more `x` at the end holds one more `x` and as many of everything else.
proof fn lemma_count_push(s: Seq<u8>, x: u8, v: u8)
    ensures
        count_of(s.push(x), v) == count_of(s, v) + if x == v {
            1nat
        } else {
            0nat
        },
{
    assert(s.push(x).drop_last() =~= s);
}

/// The items of a list of cards below 64, in ascending order: for each card in turn, as many
/// copies as the list holds.
fn sorted_by_count(items: &[u8]) -> (r: Vec<u8>)
    requires
        forall|i: int| 0 <= i < items@.len() ==> items@[i] < 64,
    ensures
        ascending(r@),
        forall|v: u8| count_of(r@, v) == count_of(items@, v),
{
    let mut out: Vec<u8> = Vec::new();
    let mut c: u8 = 0;
    while c < 64
        invariant
            c <= 64,
            forall|i: int| 0 <= i < items@.len() ==> items@[i] < 64,
            ascending(out@),
            forall|k: int| 0 <= k < out@.len() ==> out@[k] < c,
            forall|v: u8| v < c ==> count_of(out@, v) == count_of(items@, v),
            forall|v: u8| v >= c ==> count_of(out@, v) == 0,
        decreases 64 - c,
    {
        let ghost before = out@;
        let mut i: usize = 0;
        while i < items.len()
            invariant
                c < 64,
                i <= items@.len(),
                ascending(out@),
                forall|k: int| 0 <= k < out@.len() ==> out@[k] <= c,
                forall|k: int| 0 <= k < before.len() ==> before[k] < c,
                forall|v: u8| v != c ==> count_of(out@, v) == count_of(before, v),
                count_of(out@, c) == count_of(before, c) + count_of(items@.take(i as int), c),
            decreases items.len() - i,
        {
            proof {
                assert(items@.take(i as int + 1).drop_last() =~= items@.take(i as int));
            }
            if items[i] == c {
                proof {
                    assert forall|v: u8| #![auto] count_of(out@.push(c), v) == count_of(out@, v)
                        + if c == v {
                        1nat
                    } else {
                        0nat
                    } by {
                        lemma_count_push(out@, c, v);
                    }
                }
                out.push(c);
            }
            i += 1;
        }
        proof {
            assert(items@.take(items@.len() as int) =~= items@);
            assert forall|v: u8| v < c + 1 implies count_of(out@, v) == count_of(items@, v) by {
                if v != c {
                    assert(count_of(out@, v) == count_of(before, v));
                }
            }
            assert forall|v: u8| v >= c + 1 implies count_of(out@, v) == 0 by {
                assert(count_of(out@, v) == count_of(before, v));
            }
        }
        c += 1;
    }
    proof {
        assert forall|v: u8| count_of(out@, v) == count_of(items@, v) by {
            if v >= 64 {
                lemma_count_absent(items@, v);
            }
        }
    }
    out
}

/// A value that no item equals occurs nowhere.
proof fn lemma_count_absent(s: Seq<u8>, v: u8)
    requires
        forall|i: int| 0 <= i < s.len() ==> s[i] != v,
    ensures
        count_of(s, v) == 0,
    decreases s.len(),
{
    if s.len() > 0 {
        lemma_count_absent(s.drop_last(), v);
    }
}

/// Whether any entry of a history is the placeholder `usize::MAX` rather than an explicit index.
pub fn has_placeholder(history: &Vec<usize>) -> (r: bool)
    ensures
        r == history@.contains(usize::MAX),
{
    let mut i: usize = 0;
    while i < history.len()
        invariant
            i <= history@.len(),
            forall|k: int| 0 <= k < i ==> history@[k] != usize::MAX,
        decreases history.len() - i,
    {
        if history[i] == usize::MAX {
            proof {
                assert(history@[i as int] == usize::MAX);
            }
            return true;
        }
        i += 1;
    }
    false
}

/// The refusal of a history that holds a placeholder instead of explicit indices.
pub open spec fn placeholder_error() -> JobError {
    JobError::BadHistory { index: usize::MAX, available: 0 }
}

/// Accept an aggregation report over a solve job — finished, or still queued or running, since
/// the queue runs the source first. The report is queued like any job.
///
/// # Errors
///
/// The source's refusal (see [`analysis_source_check`]), or `BadHistory` when the base
/// history or the line holds a placeholder instead of an explicit index.
pub fn submit_report(book: &mut JobBook, spec: &ReportSpec) -> (r: Result<JobId, JobError>)
    requires
        old(book).wf(),
        old(book).next_id() < u64::MAX,
    ensures
        final(book).wf(),
        analysis_source_check(old(book).jobs(), spec.job_id) is Err ==> r == Err::<JobId, JobError>(
            analysis_source_check(old(book).jobs(), spec.job_id)->Err_0,
        ),
        analysis_source_check(old(book).jobs(), spec.job_id) is Ok && (spec.history@.contains(
            usize::MAX,
        ) || spec.line@.contains(usize::MAX)) ==> r == Err::<JobId, JobError>(placeholder_error()),
        r is Err ==> *final(book) == *old(book),
        r is Ok <==> analysis_source_check(old(book).jobs(), spec.job_id) is Ok
            && !spec.history@.contains(usize::MAX) && !spec.line@.contains(usize::MAX),
        r matches Ok(id) ==> id == old(book).next_id() && final(book).jobs() == old(
            book,
        ).jobs().insert(id, queued_view(id, JobKind::Report)) && final(book).queue() == old(
            book,
        ).queue().push(id) && final(book).next_id() == id + 1,
{
    match book.check_analysis_source(spec.job_id) {
        Ok(()) => {},
        Err(e) => return Err(e),
    }
    if has_placeholder(&spec.history) || has_placeholder(&spec.line) {
        return Err(JobError::BadHistory { index: usize::MAX, available: 0 });
    }
    Ok(book.enqueue(JobKind::Report))
}

/// What is wrong with a dump request beyond its source and history: an empty path, or a street
/// bound outside `3..=5`.
pub open spec fn dump_request_problem(spec: DumpSpec) -> Option<(Seq<char>, Seq<char>)> {
    if spec.path@.len() == 0 {
        Some(("dump.path"@, "must name a file"@))
    } else if !(3 <= spec.max_board_cards <= 5) {
        Some(("dump.maxBoardCards"@, "must be 3, 4 or 5"@))
    } else {
        None
    }
}

/// Accept a full-tree dump of a solve job to a JSON Lines file. The dump is queued like any job.
///
/// # Errors
///
/// As [`submit_report`] for the source and the base history, then an empty `path` or a
/// `maxBoardCards` outside `3..=5`, as amount errors naming the field.
pub fn submit_dump(book: &mut JobBook, spec: &DumpSpec) -> (r: Result<JobId, JobError>)
    requires
        old(book).wf(),
        old(book).next_id() < u64::MAX,
    ensures
        final(book).wf(),
        analysis_source_check(old(book).jobs(), spec.job_id) is Err ==> r == Err::<JobId, JobError>(
            analysis_source_check(old(book).jobs(), spec.job_id)->Err_0,
        ),
        analysis_source_check(old(book).jobs(), spec.job_id) is Ok && spec.history@.contains(
            usize::MAX,
        ) ==> r == Err::<JobId, JobError>(placeholder_error()),
        analysis_source_check(old(book).jobs(), spec.job_id) is Ok && !spec.history@.contains(
            usize::MAX,
        ) && dump_request_problem(*spec) is Some ==> (r matches Err(
            JobError::Engine(EngineError::Spot(SpotError::Amount { field, reason })),
        ) && (field@, reason@) == dump_request_problem(*spec)->0),
        r is Err ==> *final(book) == *old(book),
        r is Ok <==> analysis_source_check(old(book).jobs(), spec.job_id) is Ok
            && !spec.history@.contains(usize::MAX) && dump_request_problem(*spec) is None,
        r matches Ok(id) ==> id == old(book).next_id() && final(book).jobs() == old(
            book,
        ).jobs().insert(id, queued_view(id, JobKind::Dump)) && final(book).queue() == old(
            book,
        ).queue().push(id) && final(book).next_id() == id + 1,
{
    match book.check_analysis_source(spec.job_id) {
        Ok(()) => {},
        Err(e) => return Err(e),
    }
    if has_placeholder(&spec.history) {
        return Err(JobError::BadHistory { index: usize::MAX, available: 0 });
    }
    if spec.path.as_str().is_empty() {
        return Err(
            JobError::Engine(
                EngineError::Spot(
                    SpotError::Amount {
                        field: "dump.path",
                        reason: String::from_str("must name a file"),
                    },
                ),
            ),
        );
    }
    if !(3 <= spec.max_board_cards && spec.max_board_cards <= 5) {
        return Err(
            JobError::Engine(
                EngineError::Spot(
                    SpotError::Amount {
                        field: "dump.maxBoardCards",
                        reason: String::from_str("must be 3, 4 or 5"),
                    },
                ),
            ),
        );
    }
    Ok(book.enqueue(JobKind::Dump))
}

/// What a report's base node must be: a chance node that may be descended for `runouts`, a
/// decision node for `lines` and `categories`.
pub open spec fn report_base_check(
    kind: ReportKind,
    is_terminal: bool,
    is_chance: bool,
    mode: BoardState,
    board_len: usize,
) -> Result<(), AnalyzeError> {
    match kind {
        ReportKind::Runouts => if is_terminal || !is_chance {
            Err(AnalyzeError::BadBase { needed: "chance", actual: if is_terminal { "terminal" } else { "decision" } })
        } else if !descendable(mode, board_len as int) {
            Err(AnalyzeError::StorageBoundary)
        } else {
            Ok(())
        },
        _ => if is_terminal || is_chance {
            Err(AnalyzeError::BadBase { needed: "decision", actual: if is_terminal { "terminal" } else { "chance" } })
        } else {
            Ok(())
        },
    }
}

/// Check the node a report's base history reaches.
///
/// # Errors
///
/// `BadBase` naming the kind needed and the kind reached, or `StorageBoundary` for a `runouts`
/// base below which the file kept nothing.
pub fn check_report_base(
    kind: ReportKind,
    is_terminal: bool,
    is_chance: bool,
    mode: BoardState,
    board_len: usize,
) -> (r: Result<(), AnalyzeError>)
    ensures
        r == report_base_check(kind, is_terminal, is_chance, mode, board_len),
{
    match kind {
        ReportKind::Runouts => {
            if is_terminal || !is_chance {
                let actual = if is_terminal {
                    "terminal"
                } else {
                    "decision"
                };
                return Err(AnalyzeError::BadBase { needed: "chance", actual });
            }
            if !may_descend(mode, board_len) {
                return Err(AnalyzeError::StorageBoundary);
            }
            Ok(())
        },
        _ => {
            if is_terminal || is_chance {
                let actual = if is_terminal {
                    "terminal"
                } else {
                    "chance"
                };
                return Err(AnalyzeError::BadBase { needed: "decision", actual });
            }
            Ok(())
        },
    }
}

/// How a `lines` row names its line: `(root)` for the base itself, else the actions joined.
pub open spec fn line_name(texts: Seq<Seq<char>>) -> Seq<char>
    decreases texts.len(),
{
    if texts.len() == 0 {
        "(root)"@
    } else if texts.len() == 1 {
        texts[0]
    } else {
        line_name(texts.drop_last()) + ", "@ + texts.last()
    }
}

/// The name of a `lines` row.
pub fn line_label(texts: &Vec<String>) -> (s: String)
    ensures
        s@ == line_name(crate::spot::string_views(texts@)),
{
    if texts.len() == 0 {
        return String::from_str("(root)");
    }
    let mut s = texts[0].clone();
    let mut i: usize = 1;
    while i < texts.len()
        invariant
            1 <= i <= texts@.len(),
            s@ == line_name(crate::spot::string_views(texts@.take(i as int))),
        decreases texts.len() - i,
    {
        proof {
            assert(crate::spot::string_views(texts@.take(i as int + 1)).drop_last() =~= crate::spot::string_views(
                texts@.take(i as int),
            ));
        }
        s.append(", ");
        s.append(texts[i].as_str());
        i += 1;
    }
    proof {
        assert(texts@.take(texts@.len() as int) =~= texts@);
        assert(crate::spot::string_views(texts@.take(1)) =~= seq![texts@[0]@]);
    }
    s
}

/// A dump request is well formed beyond its source exactly when it names a file and bounds
/// the street at three, four or five cards; the byte meter fails exactly when the running total
/// passes a set limit, and otherwise is the running total.
pub proof fn law_dump_requests_and_the_byte_meter(spec: DumpSpec, written: u64, line_len: u64, max_bytes: Option<u64>)
    requires
        written + line_len <= u64::MAX,
    ensures
        dump_request_problem(spec) is None <==> (spec.path@.len() > 0 && 3 <= spec.max_board_cards
            && spec.max_board_cards <= 5),
        metered(written, line_len, max_bytes) is Err <==> (max_bytes is Some && written + line_len
            > max_bytes->0),
        metered(written, line_len, max_bytes) is Ok ==> metered(written, line_len, max_bytes)->Ok_0
            == written + line_len,
{
}

/// A chance node may be descended in a river-storage file always, in a turn-storage file only
/// below the flop, and in a flop-storage file never; a report's base must be a descendable
/// chance node for `runouts` and a decision node otherwise.
pub proof fn law_what_a_traversal_may_descend(mode: BoardState, board_len: usize, kind: ReportKind, is_terminal: bool, is_chance: bool)
    ensures
        descendable(BoardState::River, board_len as int),
        descendable(BoardState::Turn, board_len as int) <==> board_len == 3,
        !descendable(BoardState::Flop, board_len as int),
        report_base_check(kind, is_terminal, is_chance, mode, board_len) is Ok <==> (if kind is Runouts {
            !is_terminal && is_chance && descendable(mode, board_len as int)
        } else {
            !is_terminal && !is_chance
        }),
{
}

} // verus!
