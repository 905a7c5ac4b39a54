//! The ledger of every job a session has seen, and the decisions of the queue.
//!
//! A job's tree, its preparation data and its report result live with whoever runs the worker;
//! the ledger holds what the queue decides with: each job's kind and phase, why it stopped, where
//! it was saved, whether its product is held and resident, and whether someone asked it to stop.
//! Every command that changes a job — submitting, claiming, finishing, cancelling, saving,
//! releasing, reloading, forgetting — is a transition here, and every refusal is decided here.
//!
//! Two properties hold of every transition and are part of each contract:
//!
//! - **A terminal phase is final.** Once a job is `Done`, `Cancelled` or `Failed`, no transition
//!   changes its phase or why it stopped ([`keeps_terminal`]).
//! - **Ids are never reused.** Every id handed out is the counter's value, every id in the
//!   ledger is below the counter, and the counter never moves back.
use vstd::prelude::*;

use crate::engine::Stopped;
use crate::jobs::{check_bunching_flop, flop_mismatch_text, JobError, JobId, JobKind, Phase};
use crate::spot::{string_views, SpotError};
use crate::engine::EngineError;

verus! {

/// The text of an optional string.
pub open spec fn opt_view(o: Option<String>) -> Option<Seq<char>> {
    match o {
        Some(s) => Some(s@),
        None => None,
    }
}

/// A copy of an optional string.
fn copy_opt(o: &Option<String>) -> (r: Option<String>)
    ensures
        opt_view(r) == opt_view(*o),
{
    match o {
        Some(s) => Some(s.clone()),
        None => None,
    }
}

/// A job's row as the ledger sees it.
pub struct JobView {
    pub job_id: JobId,
    pub kind: JobKind,
    pub phase: Phase,
    pub stopped: Option<Stopped>,
    pub saved_to: Option<Seq<char>>,
    pub resident: bool,
    pub error: Option<Seq<char>>,
    pub holds_product: bool,
    pub cancel_requested: bool,
}

/// What the ledger knows of one job.
#[derive(Debug)]
pub struct JobRecord {
    pub job_id: JobId,
    pub kind: JobKind,
    pub phase: Phase,
    /// Why the job stopped; present once terminal (a failure says why in `error` instead).
    pub stopped: Option<Stopped>,
    /// The file the job's product was written to.
    pub saved_to: Option<String>,
    /// Whether the product is in memory right now.
    pub resident: bool,
    pub error: Option<String>,
    /// Whether the job's product is held: a solve's game, a preparation's data, a report's
    /// result.
    pub holds_product: bool,
    /// Whether someone asked the job to stop.
    pub cancel_requested: bool,
}

impl View for JobRecord {
    type V = JobView;

    open spec fn view(&self) -> JobView {
        JobView {
            job_id: self.job_id,
            kind: self.kind,
            phase: self.phase,
            stopped: self.stopped,
            saved_to: opt_view(self.saved_to),
            resident: self.resident,
            error: opt_view(self.error),
            holds_product: self.holds_product,
            cancel_requested: self.cancel_requested,
        }
    }
}

impl JobRecord {
    /// A copy of this record.
    pub fn snapshot(&self) -> (r: JobRecord)
        ensures
            r@ == self@,
    {
        JobRecord {
            job_id: self.job_id,
            kind: self.kind,
            phase: self.phase,
            stopped: self.stopped,
            saved_to: copy_opt(&self.saved_to),
            resident: self.resident,
            error: copy_opt(&self.error),
            holds_product: self.holds_product,
            cancel_requested: self.cancel_requested,
        }
    }
}

/// The row of a job just accepted into the queue.
pub open spec fn queued_view(id: JobId, kind: JobKind) -> JobView {
    JobView {
        job_id: id,
        kind,
        phase: Phase::Queued,
        stopped: None,
        saved_to: None,
        resident: false,
        error: None,
        holds_product: false,
        cancel_requested: false,
    }
}

/// The row of a job read back from `path`: already done, its product held and resident.
pub open spec fn opened_view(id: JobId, kind: JobKind, path: Seq<char>) -> JobView {
    JobView {
        job_id: id,
        kind,
        phase: Phase::Done,
        stopped: None,
        saved_to: Some(path),
        resident: true,
        error: None,
        holds_product: true,
        cancel_requested: false,
    }
}

/// A finished solve can always be read: it holds its tree, or the tree is in a file.
pub open spec fn readable_when_done(v: JobView) -> bool {
    v.kind is Solve && v.phase is Done ==> v.holds_product || v.saved_to is Some
}

/// No job that was terminal before has changed its phase or why it stopped.
pub open spec fn keeps_terminal(before: Map<JobId, JobView>, after: Map<JobId, JobView>) -> bool {
    forall|id: JobId|
        #![trigger before[id], after[id]]
        before.contains_key(id) && after.contains_key(id) && before[id].phase.spec_is_terminal()
            ==> after[id].phase == before[id].phase && after[id].stopped == before[id].stopped
}

/// The ledger: every job a session has seen, the queue of ids waiting for the worker, the id
/// counter, and whether the worker has been told to stop.
pub struct JobBook {
    records: Vec<JobRecord>,
    queue: Vec<JobId>,
    next_id: JobId,
    stopping: bool,
}

impl JobBook {
    /// Rows are kept in ascending id order, and every id is below the counter.
    pub closed spec fn wf(&self) -> bool {
        &&& forall|i: int, j: int|
            0 <= i < j < self.records@.len() ==> self.records@[i].job_id
                < self.records@[j].job_id
        &&& forall|i: int| 0 <= i < self.records@.len() ==> self.records@[i].job_id < self.next_id
        &&& forall|i: int| 0 <= i < self.records@.len() ==> readable_when_done(#[trigger] self.records@[i]@)
        &&& 1 <= self.next_id
    }

    spec fn holds(&self, id: JobId) -> bool {
        exists|i: int| 0 <= i < self.records@.len() && self.records@[i].job_id == id
    }

    spec fn index_of(&self, id: JobId) -> int {
        choose|i: int| 0 <= i < self.records@.len() && self.records@[i].job_id == id
    }

    /// Every job the ledger holds, by id.
    pub closed spec fn jobs(&self) -> Map<JobId, JobView> {
        Map::new(|id: JobId| self.holds(id), |id: JobId| self.records@[self.index_of(id)]@)
    }

    /// The ids the ledger holds, oldest first.
    pub closed spec fn ids(&self) -> Seq<JobId> {
        self.records@.map_values(|r: JobRecord| r.job_id)
    }

    /// The ids waiting for the worker, front first.
    pub closed spec fn queue(&self) -> Seq<JobId> {
        self.queue@
    }

    /// The id the next accepted job will get.
    pub closed spec fn next_id(&self) -> JobId {
        self.next_id
    }

    /// Whether the worker has been told to stop.
    pub closed spec fn stopping(&self) -> bool {
        self.stopping
    }

    /// The id the next accepted job will get.
    pub fn peek_next_id(&self) -> (r: JobId)
        ensures
            r == self.next_id(),
    {
        self.next_id
    }

    /// Whether the worker has been told to stop.
    pub fn is_stopping(&self) -> (r: bool)
        ensures
            r == self.stopping(),
    {
        self.stopping
    }

    /// The row at position `i` is the ledger's entry for its id.
    proof fn lemma_at(&self, i: int)
        requires
            self.wf(),
            0 <= i < self.records@.len(),
        ensures
            self.jobs().contains_key(self.records@[i].job_id),
            self.jobs()[self.records@[i].job_id] == self.records@[i]@,
            self.index_of(self.records@[i].job_id) == i,
    {
        let id = self.records@[i].job_id;
        assert(self.holds(id));
        let j = self.index_of(id);
        if j < i {
            assert(self.records@[j].job_id < self.records@[i].job_id);
        } else if i < j {
            assert(self.records@[i].job_id < self.records@[j].job_id);
        }
    }

    /// Replacing one row by a row with the same id replaces that id's entry.
    proof fn lemma_replaced(before: JobBook, after: JobBook, i: int)
        requires
            before.wf(),
            0 <= i < before.records@.len(),
            after.records@ == before.records@.update(i, after.records@[i]),
            after.records@[i].job_id == before.records@[i].job_id,
            readable_when_done(after.records@[i]@),
            after.next_id == before.next_id,
        ensures
            after.wf(),
            after.jobs() == before.jobs().insert(before.records@[i].job_id, after.records@[i]@),
            after.ids() == before.ids(),
    {
        let id = before.records@[i].job_id;
        let target = before.jobs().insert(id, after.records@[i]@);
        assert(after.wf());
        assert forall|k: JobId| after.jobs().contains_key(k) <==> target.contains_key(k) by {
            if after.holds(k) {
                let j = choose|j: int|
                    0 <= j < after.records@.len() && after.records@[j].job_id == k;
                before.lemma_at(j);
            }
            if before.holds(k) {
                let j = choose|j: int|
                    0 <= j < before.records@.len() && before.records@[j].job_id == k;
                after.lemma_at(j);
            }
        }
        assert forall|k: JobId| after.jobs().contains_key(k) implies after.jobs()[k]
            == target[k] by {
            let j = choose|j: int| 0 <= j < after.records@.len() && after.records@[j].job_id == k;
            after.lemma_at(j);
            before.lemma_at(j);
        }
        assert(after.jobs() =~= target);
        assert(after.ids() =~= before.ids());
    }

    /// Appending a row whose id is the counter adds that id, and the counter moves past it.
    proof fn lemma_pushed(before: JobBook, after: JobBook)
        requires
            before.wf(),
            before.next_id < u64::MAX,
            after.records@.len() == before.records@.len() + 1,
            after.records@.drop_last() == before.records@,
            after.records@.last().job_id == before.next_id,
            readable_when_done(after.records@.last()@),
            after.next_id == before.next_id + 1,
        ensures
            after.wf(),
            !before.jobs().contains_key(before.next_id),
            after.jobs() == before.jobs().insert(before.next_id, after.records@.last()@),
            after.ids() == before.ids().push(before.next_id),
    {
        let id = before.next_id;
        let n = before.records@.len() as int;
        assert forall|j: int| 0 <= j < n implies after.records@[j] == before.records@[j] by {
            assert(after.records@.drop_last()[j] == after.records@[j]);
        }
        if before.holds(id) {
            let j = choose|j: int|
                0 <= j < before.records@.len() && before.records@[j].job_id == id;
            assert(false);
        }
        assert(after.wf());
        let target = before.jobs().insert(id, after.records@.last()@);
        assert forall|k: JobId| after.jobs().contains_key(k) <==> target.contains_key(k) by {
            if after.holds(k) {
                let j = choose|j: int|
                    0 <= j < after.records@.len() && after.records@[j].job_id == k;
                if j < n {
                    before.lemma_at(j);
                }
            }
            if before.holds(k) {
                let j = choose|j: int|
                    0 <= j < before.records@.len() && before.records@[j].job_id == k;
                after.lemma_at(j);
            }
            if k == id {
                after.lemma_at(n);
            }
        }
        assert forall|k: JobId| after.jobs().contains_key(k) implies after.jobs()[k]
            == target[k] by {
            let j = choose|j: int| 0 <= j < after.records@.len() && after.records@[j].job_id == k;
            after.lemma_at(j);
            if j < n {
                before.lemma_at(j);
            }
        }
        assert(after.jobs() =~= target);
        assert(after.ids() =~= before.ids().push(id));
    }

    /// Removing the row at position `i` removes its id and nothing else.
    proof fn lemma_removed(before: JobBook, after: JobBook, i: int)
        requires
            before.wf(),
            0 <= i < before.records@.len(),
            after.records@ == before.records@.remove(i),
            after.next_id == before.next_id,
        ensures
            after.wf(),
            after.jobs() == before.jobs().remove(before.records@[i].job_id),
    {
        let id = before.records@[i].job_id;
        let target = before.jobs().remove(id);
        assert forall|a: int, b: int|
            0 <= a < b < after.records@.len() implies after.records@[a].job_id
            < after.records@[b].job_id by {
            let a0 = if a < i {
                a
            } else {
                a + 1
            };
            let b0 = if b < i {
                b
            } else {
                b + 1
            };
            assert(after.records@[a] == before.records@[a0]);
            assert(after.records@[b] == before.records@[b0]);
        }
        assert forall|a: int| 0 <= a < after.records@.len() implies after.records@[a].job_id
            < after.next_id by {
            let a0 = if a < i {
                a
            } else {
                a + 1
            };
            assert(after.records@[a] == before.records@[a0]);
        }
        assert(after.wf());
        before.lemma_at(i);
        assert forall|k: JobId| after.jobs().contains_key(k) <==> target.contains_key(k) by {
            if after.holds(k) {
                let j = choose|j: int|
                    0 <= j < after.records@.len() && after.records@[j].job_id == k;
                let j0 = if j < i {
                    j
                } else {
                    j + 1
                };
                assert(after.records@[j] == before.records@[j0]);
                before.lemma_at(j0);
            }
            if before.holds(k) && k != id {
                let j = choose|j: int|
                    0 <= j < before.records@.len() && before.records@[j].job_id == k;
                before.lemma_at(j);
                let j1 = if j < i {
                    j
                } else {
                    j - 1
                };
                assert(after.records@[j1] == before.records@[j]);
                after.lemma_at(j1);
            }
        }
        assert forall|k: JobId| after.jobs().contains_key(k) implies after.jobs()[k]
            == target[k] by {
            let j = choose|j: int| 0 <= j < after.records@.len() && after.records@[j].job_id == k;
            after.lemma_at(j);
            let j0 = if j < i {
                j
            } else {
                j + 1
            };
            assert(after.records@[j] == before.records@[j0]);
            before.lemma_at(j0);
        }
        assert(after.jobs() =~= target);
    }

    /// An empty ledger; the first id handed out is 1.
    pub fn new() -> (b: JobBook)
        ensures
            b.wf(),
            b.jobs() == Map::<JobId, JobView>::empty(),
            b.ids() == Seq::<JobId>::empty(),
            b.queue() == Seq::<JobId>::empty(),
            b.next_id() == 1,
            !b.stopping(),
    {
        let b = JobBook { records: Vec::new(), queue: Vec::new(), next_id: 1, stopping: false };
        assert(b.jobs() =~= Map::<JobId, JobView>::empty());
        assert(b.ids() =~= Seq::<JobId>::empty());
        b
    }

    /// Where the row for `id` sits, if the ledger holds one.
    fn find(&self, id: JobId) -> (r: Option<usize>)
        requires
            self.wf(),
        ensures
            r matches Some(i) ==> i < self.records@.len() && self.records@[i as int].job_id == id
                && self.jobs().contains_key(id) && self.jobs()[id] == self.records@[i as int]@,
            r is None ==> !self.jobs().contains_key(id),
    {
        let mut i: usize = 0;
        while i < self.records.len()
            invariant
                self.wf(),
                i <= self.records@.len(),
                forall|k: int| 0 <= k < i ==> self.records@[k].job_id != id,
            decreases self.records.len() - i,
        {
            if self.records[i].job_id == id {
                proof {
                    self.lemma_at(i as int);
                }
                return Some(i);
            }
            i += 1;
        }
        None
    }

    /// The current row of one job.
    ///
    /// # Errors
    ///
    /// `NoSuchJob` if the ledger holds no such job.
    pub fn status(&self, id: JobId) -> (r: Result<JobRecord, JobError>)
        requires
            self.wf(),
        ensures
            self.jobs().contains_key(id) ==> (r matches Ok(rec) && rec@ == self.jobs()[id]),
            !self.jobs().contains_key(id) ==> r == Err::<JobRecord, JobError>(
                JobError::NoSuchJob(id),
            ),
    {
        match self.find(id) {
            Some(i) => Ok(self.records[i].snapshot()),
            None => Err(JobError::NoSuchJob(id)),
        }
    }

    /// Every row, oldest first.
    pub fn list(&self) -> (r: Vec<JobRecord>)
        requires
            self.wf(),
        ensures
            r@.len() == self.ids().len(),
            forall|i: int| 0 <= i < r@.len() ==> r@[i]@ == self.jobs()[#[trigger] self.ids()[i]],
    {
        let mut out: Vec<JobRecord> = Vec::new();
        let mut i: usize = 0;
        while i < self.records.len()
            invariant
                self.wf(),
                i <= self.records@.len(),
                out@.len() == i,
                forall|k: int| 0 <= k < i ==> out@[k]@ == self.jobs()[self.ids()[k]],
            decreases self.records.len() - i,
        {
            proof {
                self.lemma_at(i as int);
            }
            out.push(self.records[i].snapshot());
            i += 1;
        }
        out
    }

    /// Accept a job into the queue: it gets the counter's id, a queued row, and a place at the
    /// back of the queue.
    pub fn enqueue(&mut self, kind: JobKind) -> (id: JobId)
        requires
            old(self).wf(),
            old(self).next_id() < u64::MAX,
        ensures
            final(self).wf(),
            id == old(self).next_id(),
            !old(self).jobs().contains_key(id),
            final(self).jobs() == old(self).jobs().insert(id, queued_view(id, kind)),
            final(self).ids() == old(self).ids().push(id),
            final(self).queue() == old(self).queue().push(id),
            final(self).next_id() == id + 1,
            final(self).stopping() == old(self).stopping(),
    {
        let ghost before = *self;
        let id = self.next_id;
        self.records.push(
            JobRecord {
                job_id: id,
                kind,
                phase: Phase::Queued,
                stopped: None,
                saved_to: None,
                resident: false,
                error: None,
                holds_product: false,
                cancel_requested: false,
            },
        );
        self.next_id = id + 1;
        self.queue.push(id);
        proof {
            assert(self.records@.drop_last() =~= before.records@);
            JobBook::lemma_pushed(before, *self);
        }
        id
    }

    /// Record a product read back from `path` as a new job that is already done, its product
    /// held and resident. It is not queued: there is nothing left to compute.
    pub fn record_opened(&mut self, kind: JobKind, path: String) -> (id: JobId)
        requires
            old(self).wf(),
            old(self).next_id() < u64::MAX,
        ensures
            final(self).wf(),
            id == old(self).next_id(),
            !old(self).jobs().contains_key(id),
            final(self).jobs() == old(self).jobs().insert(id, opened_view(id, kind, path@)),
            final(self).ids() == old(self).ids().push(id),
            final(self).queue() == old(self).queue(),
            final(self).next_id() == id + 1,
            final(self).stopping() == old(self).stopping(),
    {
        let ghost before = *self;
        let ghost p = path@;
        let id = self.next_id;
        self.records.push(
            JobRecord {
                job_id: id,
                kind,
                phase: Phase::Done,
                stopped: None,
                saved_to: Some(path),
                resident: true,
                error: None,
                holds_product: true,
                cancel_requested: false,
            },
        );
        self.next_id = id + 1;
        proof {
            assert(self.records@.drop_last() =~= before.records@);
            JobBook::lemma_pushed(before, *self);
        }
        id
    }
}

/// The row after a cancel request: a queued job is cancelled outright; any other only carries
/// the request, which the worker notices — and a finished one is left as it was.
pub open spec fn after_cancel(v: JobView) -> JobView {
    if v.phase is Queued {
        JobView {
            phase: Phase::Cancelled,
            stopped: Some(Stopped::Cancelled),
            cancel_requested: true,
            ..v
        }
    } else {
        JobView { cancel_requested: true, ..v }
    }
}

/// Whether the worker may take this id from the queue: the job still exists, is still queued,
/// and nobody asked it to stop.
pub open spec fn claimable(jobs: Map<JobId, JobView>, id: JobId) -> bool {
    jobs.contains_key(id) && jobs[id].phase is Queued && !jobs[id].cancel_requested
}

/// How a job's run ended, as the worker reports it.
pub enum Outcome {
    /// A solve finished or was cancelled; either way its game was finalized and is held. The
    /// save it was asked for either landed in `saved_to` or failed with `save_error`.
    Solved { stopped: Stopped, saved_to: Option<String>, save_error: Option<String> },
    /// A bunching preparation completed and its data is held.
    Prepared { saved_to: Option<String>, save_error: Option<String> },
    /// A report completed and its result is held.
    Reported,
    /// A dump completed and its file is written.
    Dumped { path: String },
    /// A preparation, report or dump was cancelled; a half-computed product is kept by nobody.
    Halted,
    /// The job could not be built or blew up while running.
    Failed { message: String },
}

/// The row after the worker reports `o`.
pub open spec fn finished(v: JobView, o: Outcome) -> JobView {
    match o {
        Outcome::Solved { stopped, saved_to, save_error } => JobView {
            phase: if stopped is Cancelled {
                Phase::Cancelled
            } else {
                Phase::Done
            },
            stopped: Some(stopped),
            saved_to: opt_view(saved_to),
            error: if save_error is Some {
                opt_view(save_error)
            } else {
                v.error
            },
            resident: true,
            holds_product: true,
            ..v
        },
        Outcome::Prepared { saved_to, save_error } => JobView {
            phase: Phase::Done,
            saved_to: opt_view(saved_to),
            error: if save_error is Some {
                opt_view(save_error)
            } else {
                v.error
            },
            resident: true,
            holds_product: true,
            ..v
        },
        Outcome::Reported => JobView { phase: Phase::Done, holds_product: true, ..v },
        Outcome::Dumped { path } => JobView { phase: Phase::Done, saved_to: Some(path@), ..v },
        Outcome::Halted => JobView {
            phase: Phase::Cancelled,
            stopped: Some(Stopped::Cancelled),
            ..v
        },
        Outcome::Failed { message } => JobView { phase: Phase::Failed, error: Some(message@), ..v },
    }
}

impl JobBook {
    /// Put `row` where the row with its id sits.
    fn replace_row(&mut self, i: usize, row: JobRecord)
        requires
            old(self).wf(),
            i < old(self).records@.len(),
            row.job_id == old(self).records@[i as int].job_id,
            readable_when_done(row@),
        ensures
            final(self).wf(),
            final(self).jobs() == old(self).jobs().insert(row.job_id, row@),
            final(self).ids() == old(self).ids(),
            final(self).queue() == old(self).queue(),
            final(self).next_id() == old(self).next_id(),
            final(self).stopping() == old(self).stopping(),
    {
        let ghost before = *self;
        self.records.set(i, row);
        proof {
            JobBook::lemma_replaced(before, *self, i as int);
        }
    }

    /// Ask a job to stop. A job that has not started is cancelled outright, and the worker skips
    /// it when it reaches the front of the queue; a running one carries the request until the
    /// worker notices; a finished one is left as it was — cancelling it is not an error, so a
    /// host racing the last progress frame need not care.
    ///
    /// # Errors
    ///
    /// `NoSuchJob` if the ledger holds no such job.
    pub fn cancel(&mut self, id: JobId) -> (r: Result<JobRecord, JobError>)
        requires
            old(self).wf(),
        ensures
            final(self).wf(),
            !old(self).jobs().contains_key(id) ==> r == Err::<JobRecord, JobError>(
                JobError::NoSuchJob(id),
            ) && *final(self) == *old(self),
            old(self).jobs().contains_key(id) ==> final(self).jobs() == old(self).jobs().insert(
                id,
                after_cancel(old(self).jobs()[id]),
            ) && (r matches Ok(rec) && rec@ == final(self).jobs()[id]),
            keeps_terminal(old(self).jobs(), final(self).jobs()),
            final(self).ids() == old(self).ids(),
            final(self).queue() == old(self).queue(),
            final(self).next_id() == old(self).next_id(),
            final(self).stopping() == old(self).stopping(),
    {
        match self.find(id) {
            None => Err(JobError::NoSuchJob(id)),
            Some(i) => {
                let mut row = self.records[i].snapshot();
                row.cancel_requested = true;
                if matches!(row.phase, Phase::Queued) {
                    row.phase = Phase::Cancelled;
                    row.stopped = Some(Stopped::Cancelled);
                }
                let answer = row.snapshot();
                self.replace_row(i, row);
                Ok(answer)
            },
        }
    }

    /// The worker takes the next job: ids are taken from the front of the queue until one is
    /// still claimable, which moves to `Building`; the ones passed over were cancelled or
    /// forgotten while they waited. Nothing is taken once the worker has been told to stop.
    pub fn claim_next(&mut self) -> (r: Option<JobId>)
        requires
            old(self).wf(),
        ensures
            final(self).wf(),
            old(self).stopping() ==> r is None && *final(self) == *old(self),
            !old(self).stopping() && r is None ==> (forall|i: int|
                0 <= i < old(self).queue().len() ==> !claimable(
                    old(self).jobs(),
                    #[trigger] old(self).queue()[i],
                )) && final(self).queue() == Seq::<JobId>::empty() && final(self).jobs()
                == old(self).jobs(),
            r matches Some(id) ==> !old(self).stopping() && exists|k: int|
                0 <= k < old(self).queue().len() && old(self).queue()[k] == id && claimable(
                    old(self).jobs(),
                    id,
                ) && (forall|i: int|
                    0 <= i < k ==> !claimable(old(self).jobs(), #[trigger] old(self).queue()[i]))
                    && final(self).queue() == old(self).queue().subrange(
                    k + 1,
                    old(self).queue().len() as int,
                ),
            r matches Some(id) ==> final(self).jobs() == old(self).jobs().insert(
                id,
                JobView { phase: Phase::Building, ..old(self).jobs()[id] },
            ),
            keeps_terminal(old(self).jobs(), final(self).jobs()),
            final(self).ids() == old(self).ids(),
            final(self).next_id() == old(self).next_id(),
            final(self).stopping() == old(self).stopping(),
    {
        if self.stopping {
            return None;
        }
        let ghost before = *self;
        let ghost q0 = self.queue@;
        let ghost mut consumed: int = 0;
        while self.queue.len() > 0
            invariant
                self.wf(),
                before == *old(self),
                !self.stopping,
                self.records@ == before.records@,
                self.next_id == before.next_id,
                before.wf(),
                before.queue@ == q0,
                !before.stopping,
                0 <= consumed <= q0.len(),
                self.queue@ == q0.subrange(consumed, q0.len() as int),
                forall|i: int| 0 <= i < consumed ==> !claimable(before.jobs(), #[trigger] q0[i]),
            decreases self.queue@.len(),
        {
            let id = self.queue.remove(0);
            proof {
                assert(id == q0[consumed]);
                assert(self.queue@ =~= q0.subrange(consumed + 1, q0.len() as int));
                assert(self.jobs() == before.jobs());
            }
            match self.find(id) {
                Some(i) => {
                    if matches!(self.records[i].phase, Phase::Queued)
                        && !self.records[i].cancel_requested {
                        let mut row = self.records[i].snapshot();
                        row.phase = Phase::Building;
                        self.replace_row(i, row);
                        proof {
                            assert(claimable(before.jobs(), id));
                            assert(q0[consumed] == id);
                            assert(self.queue@ =~= q0.subrange(consumed + 1, q0.len() as int));
                            let k = consumed;
                            assert(0 <= k < before.queue().len() && before.queue()[k] == id
                                && claimable(before.jobs(), id) && (forall|i: int|
                                0 <= i < k ==> !claimable(before.jobs(), #[trigger] before.queue()[i]))
                                && self.queue() == before.queue().subrange(
                                k + 1,
                                before.queue().len() as int,
                            ));
                        }
                        return Some(id);
                    }
                },
                None => {},
            }
            proof {
                consumed = consumed + 1;
            }
        }
        proof {
            assert(consumed == q0.len());
            assert(self.queue@ =~= Seq::<JobId>::empty());
        }
        None
    }

    /// The worker has built a claimed job's tree and is running it.
    pub fn start_running(&mut self, id: JobId) -> (applied: bool)
        requires
            old(self).wf(),
        ensures
            final(self).wf(),
            applied == (old(self).jobs().contains_key(id) && old(self).jobs()[id].phase
                is Building),
            applied ==> final(self).jobs() == old(self).jobs().insert(
                id,
                JobView { phase: Phase::Running, ..old(self).jobs()[id] },
            ),
            !applied ==> *final(self) == *old(self),
            keeps_terminal(old(self).jobs(), final(self).jobs()),
            final(self).ids() == old(self).ids(),
            final(self).queue() == old(self).queue(),
            final(self).next_id() == old(self).next_id(),
            final(self).stopping() == old(self).stopping(),
    {
        match self.find(id) {
            Some(i) => {
                if matches!(self.records[i].phase, Phase::Building) {
                    let mut row = self.records[i].snapshot();
                    row.phase = Phase::Running;
                    self.replace_row(i, row);
                    return true;
                }
                false
            },
            None => false,
        }
    }

    /// The worker reports how a job's run ended. A job that is already terminal — or gone —
    /// is left as it is.
    pub fn finish(&mut self, id: JobId, outcome: Outcome) -> (applied: bool)
        requires
            old(self).wf(),
        ensures
            final(self).wf(),
            applied == (old(self).jobs().contains_key(id) && !old(self).jobs()[id].phase.spec_is_terminal()),
            applied ==> final(self).jobs() == old(self).jobs().insert(
                id,
                finished(old(self).jobs()[id], outcome),
            ),
            !applied ==> *final(self) == *old(self),
            keeps_terminal(old(self).jobs(), final(self).jobs()),
            final(self).ids() == old(self).ids(),
            final(self).queue() == old(self).queue(),
            final(self).next_id() == old(self).next_id(),
            final(self).stopping() == old(self).stopping(),
    {
        let i = match self.find(id) {
            Some(i) => i,
            None => return false,
        };
        if self.records[i].phase.is_terminal() {
            return false;
        }
        let mut row = self.records[i].snapshot();
        match outcome {
            Outcome::Solved { stopped, saved_to, save_error } => {
                row.phase = if matches!(stopped, Stopped::Cancelled) {
                    Phase::Cancelled
                } else {
                    Phase::Done
                };
                row.stopped = Some(stopped);
                row.saved_to = saved_to;
                if save_error.is_some() {
                    row.error = save_error;
                }
                row.resident = true;
                row.holds_product = true;
            },
            Outcome::Prepared { saved_to, save_error } => {
                row.phase = Phase::Done;
                row.saved_to = saved_to;
                if save_error.is_some() {
                    row.error = save_error;
                }
                row.resident = true;
                row.holds_product = true;
            },
            Outcome::Reported => {
                row.phase = Phase::Done;
                row.holds_product = true;
            },
            Outcome::Dumped { path } => {
                row.phase = Phase::Done;
                row.saved_to = Some(path);
            },
            Outcome::Halted => {
                row.phase = Phase::Cancelled;
                row.stopped = Some(Stopped::Cancelled);
            },
            Outcome::Failed { message } => {
                row.phase = Phase::Failed;
                row.error = Some(message);
            },
        }
        self.replace_row(i, row);
        true
    }

    /// Tell the worker to stop after the job it is on. Idempotent.
    pub fn shutdown(&mut self)
        requires
            old(self).wf(),
        ensures
            final(self).wf(),
            final(self).stopping(),
            final(self).jobs() == old(self).jobs(),
            final(self).ids() == old(self).ids(),
            final(self).queue() == old(self).queue(),
            final(self).next_id() == old(self).next_id(),
    {
        self.stopping = true;
        proof {
            assert(self.jobs() =~= old(self).jobs());
        }
    }
}

/// Whether the release sweep may drop this job's tree: a finished solve whose tree is in memory
/// and can be read back from its file.
pub open spec fn recoverable(v: JobView) -> bool {
    v.kind is Solve && v.phase.spec_is_readable() && v.saved_to is Some && v.resident
}

/// The ids among `ids` whose trees the sweep releases, sparing `keep`, in order.
pub open spec fn sweepable(jobs: Map<JobId, JobView>, ids: Seq<JobId>, keep: Option<JobId>) -> Seq<
    JobId,
>
    decreases ids.len(),
{
    if ids.len() == 0 {
        Seq::empty()
    } else {
        let rest = sweepable(jobs, ids.drop_last(), keep);
        if keep != Some(ids.last()) && recoverable(jobs[ids.last()]) {
            rest.push(ids.last())
        } else {
            rest
        }
    }
}

/// How a finished solve's tree can be read: it is in memory, or it must be reloaded from a file.
pub enum TreeAccess {
    Resident,
    Reload(String),
}

/// Where a solve finds the bunching data a preparation job made: held by the job, or in the
/// file it was saved to.
pub enum BunchingSource {
    Held,
    File(String),
}

/// Whether a solve can be the source of a report or dump, and if not, why not.
pub open spec fn analysis_source_check(jobs: Map<JobId, JobView>, source: JobId) -> Result<
    (),
    JobError,
> {
    if !jobs.contains_key(source) {
        Err(JobError::NoSuchJob(source))
    } else if jobs[source].kind is Bunching {
        Err(JobError::NoTree { id: source, kind: "bunching" })
    } else if jobs[source].kind is Report {
        Err(JobError::NoTree { id: source, kind: "report" })
    } else if jobs[source].kind is Dump {
        Err(JobError::NoTree { id: source, kind: "dump" })
    } else if jobs[source].phase.spec_is_terminal() && !jobs[source].phase.spec_is_readable() {
        Err(JobError::NotReadable { id: source, phase: jobs[source].phase })
    } else if jobs[source].phase.spec_is_terminal() && !jobs[source].holds_product
        && jobs[source].saved_to is None {
        Err(JobError::NeverRan(source))
    } else {
        Ok(())
    }
}

/// Whether a spot may name preparation job `job_id`, and if not, why not.
pub open spec fn bunching_ref_check(jobs: Map<JobId, JobView>, job_id: JobId) -> Result<(), JobError> {
    if !jobs.contains_key(job_id) {
        Err(JobError::NoSuchJob(job_id))
    } else if !(jobs[job_id].kind is Bunching) {
        Err(JobError::NotBunching { id: job_id })
    } else if jobs[job_id].phase.spec_is_terminal() && !jobs[job_id].holds_product
        && jobs[job_id].saved_to is None {
        Err(JobError::BunchingNotReady { id: job_id, phase: jobs[job_id].phase })
    } else {
        Ok(())
    }
}

impl JobBook {
    /// Whether a job has a product to write to disk: a solve's game or a preparation's data.
    /// A report's result is already in the `reportResult` response and a dump's file already
    /// exists, and a cancelled preparation kept nothing.
    ///
    /// # Errors
    ///
    /// `NoSuchJob` if the ledger holds no such job, `NothingToSave` if it holds nothing to save.
    pub fn check_save(&self, id: JobId) -> (r: Result<(), JobError>)
        requires
            self.wf(),
        ensures
            r == (if !self.jobs().contains_key(id) {
                Err(JobError::NoSuchJob(id))
            } else if self.jobs()[id].kind is Report || self.jobs()[id].kind is Dump
                || !self.jobs()[id].holds_product {
                Err(JobError::NothingToSave(id))
            } else {
                Ok(())
            }),
    {
        let i = match self.find(id) {
            Some(i) => i,
            None => return Err(JobError::NoSuchJob(id)),
        };
        let row = &self.records[i];
        if matches!(row.kind, JobKind::Report | JobKind::Dump) || !row.holds_product {
            return Err(JobError::NothingToSave(id));
        }
        Ok(())
    }

    /// A job's product was written to `path`.
    pub fn mark_saved(&mut self, id: JobId, path: String) -> (applied: bool)
        requires
            old(self).wf(),
        ensures
            final(self).wf(),
            applied == old(self).jobs().contains_key(id),
            applied ==> final(self).jobs() == old(self).jobs().insert(
                id,
                JobView { saved_to: Some(path@), ..old(self).jobs()[id] },
            ),
            !applied ==> *final(self) == *old(self),
            keeps_terminal(old(self).jobs(), final(self).jobs()),
            final(self).ids() == old(self).ids(),
            final(self).queue() == old(self).queue(),
            final(self).next_id() == old(self).next_id(),
            final(self).stopping() == old(self).stopping(),
    {
        match self.find(id) {
            Some(i) => {
                let mut row = self.records[i].snapshot();
                row.saved_to = Some(path);
                self.replace_row(i, row);
                true
            },
            None => false,
        }
    }

    /// Whether a job's product may be released: only a finished job's, and only once it was
    /// written to a file — otherwise the copy in memory is the only one and dropping it would
    /// throw the job away.
    ///
    /// # Errors
    ///
    /// `NoSuchJob`, `NotReadable` for a job that has not finished, `NotRecoverable` for one
    /// never saved.
    pub fn check_release(&self, id: JobId) -> (r: Result<(), JobError>)
        requires
            self.wf(),
        ensures
            r == (if !self.jobs().contains_key(id) {
                Err(JobError::NoSuchJob(id))
            } else if !self.jobs()[id].phase.spec_is_readable() {
                Err(JobError::NotReadable { id, phase: self.jobs()[id].phase })
            } else if self.jobs()[id].saved_to is None {
                Err(JobError::NotRecoverable(id))
            } else {
                Ok(())
            }),
    {
        let i = match self.find(id) {
            Some(i) => i,
            None => return Err(JobError::NoSuchJob(id)),
        };
        let row = &self.records[i];
        if !row.phase.is_readable() {
            return Err(JobError::NotReadable { id, phase: row.phase });
        }
        if row.saved_to.is_none() {
            return Err(JobError::NotRecoverable(id));
        }
        Ok(())
    }

    /// A job's product was dropped from memory. Only a solve's game and a preparation's data are
    /// ever released, and only once they are in a file to be read back from; releasing one
    /// already released changes nothing, so a host can call this without tracking what it
    /// already did.
    pub fn mark_released(&mut self, id: JobId) -> (applied: bool)
        requires
            old(self).wf(),
        ensures
            final(self).wf(),
            applied == (old(self).jobs().contains_key(id) && (old(self).jobs()[id].kind is Solve
                || old(self).jobs()[id].kind is Bunching) && old(self).jobs()[id].holds_product
                && old(self).jobs()[id].saved_to is Some),
            applied ==> final(self).jobs() == old(self).jobs().insert(
                id,
                JobView { holds_product: false, resident: false, ..old(self).jobs()[id] },
            ),
            !applied ==> *final(self) == *old(self),
            keeps_terminal(old(self).jobs(), final(self).jobs()),
            final(self).ids() == old(self).ids(),
            final(self).queue() == old(self).queue(),
            final(self).next_id() == old(self).next_id(),
            final(self).stopping() == old(self).stopping(),
    {
        match self.find(id) {
            Some(i) => {
                if matches!(self.records[i].kind, JobKind::Solve | JobKind::Bunching)
                    && self.records[i].holds_product && self.records[i].saved_to.is_some() {
                    let mut row = self.records[i].snapshot();
                    row.holds_product = false;
                    row.resident = false;
                    self.replace_row(i, row);
                    return true;
                }
                false
            },
            None => false,
        }
    }

    /// The jobs whose trees a sweep releases before the process holds another whole tree, oldest
    /// first: every finished, saved, resident solve but `keep`. Preparations are spared — their
    /// data is small next to a tree, and a queued solve is often about to need it.
    pub fn sweep_candidates(&self, keep: Option<JobId>) -> (r: Vec<JobId>)
        requires
            self.wf(),
        ensures
            r@ == sweepable(self.jobs(), self.ids(), keep),
    {
        let mut out: Vec<JobId> = Vec::new();
        let mut i: usize = 0;
        while i < self.records.len()
            invariant
                self.wf(),
                i <= self.records@.len(),
                out@ == sweepable(self.jobs(), self.ids().take(i as int), keep),
            decreases self.records.len() - i,
        {
            proof {
                self.lemma_at(i as int);
                assert(self.ids().take(i as int + 1).drop_last() =~= self.ids().take(i as int));
            }
            let row = &self.records[i];
            let take = match keep {
                Some(k) => k != row.job_id,
                None => true,
            } && matches!(row.kind, JobKind::Solve) && row.phase.is_readable()
                && row.saved_to.is_some() && row.resident;
            if take {
                out.push(row.job_id);
            }
            i += 1;
        }
        proof {
            assert(self.ids().take(self.records@.len() as int) =~= self.ids());
        }
        out
    }

    /// Remove a finished job entirely — the deliberate discard, saved or not. The id is never
    /// handed out again; afterwards the job answers `NoSuchJob`. A job still queued or running
    /// must be cancelled first, so the worker is never left running into a row that no longer
    /// exists.
    ///
    /// # Errors
    ///
    /// `NoSuchJob`, or `NotFinished` for a job that is not terminal.
    pub fn forget(&mut self, id: JobId) -> (r: Result<JobRecord, JobError>)
        requires
            old(self).wf(),
        ensures
            final(self).wf(),
            !old(self).jobs().contains_key(id) ==> r == Err::<JobRecord, JobError>(
                JobError::NoSuchJob(id),
            ) && *final(self) == *old(self),
            old(self).jobs().contains_key(id) && !old(self).jobs()[id].phase.spec_is_terminal()
                ==> r == Err::<JobRecord, JobError>(
                JobError::NotFinished { id, phase: old(self).jobs()[id].phase },
            ) && *final(self) == *old(self),
            old(self).jobs().contains_key(id) && old(self).jobs()[id].phase.spec_is_terminal()
                ==> (r matches Ok(rec) && rec@ == old(self).jobs()[id]) && final(self).jobs()
                == old(self).jobs().remove(id),
            r is Ok ==> !final(self).jobs().contains_key(id),
            keeps_terminal(old(self).jobs(), final(self).jobs()),
            final(self).queue() == old(self).queue(),
            final(self).next_id() == old(self).next_id(),
            final(self).stopping() == old(self).stopping(),
    {
        let i = match self.find(id) {
            Some(i) => i,
            None => return Err(JobError::NoSuchJob(id)),
        };
        if !self.records[i].phase.is_terminal() {
            return Err(JobError::NotFinished { id, phase: self.records[i].phase });
        }
        let ghost before = *self;
        let row = self.records.remove(i);
        proof {
            JobBook::lemma_removed(before, *self, i as int);
        }
        Ok(row)
    }

    /// Whether a finished (or still queued or running) solve can be the source of a report or
    /// dump: it must be a solve, and once terminal it must be readable and have a tree in memory
    /// or in a file. A source still queued or running is accepted: the queue runs it first.
    ///
    /// # Errors
    ///
    /// `NoSuchJob`; `NoTree` for a job of another kind; `NotReadable` for a failed source;
    /// `NeverRan` for one cancelled before it started.
    pub fn check_analysis_source(&self, source: JobId) -> (r: Result<(), JobError>)
        requires
            self.wf(),
        ensures
            r == analysis_source_check(self.jobs(), source),
    {
        let i = match self.find(source) {
            Some(i) => i,
            None => return Err(JobError::NoSuchJob(source)),
        };
        let row = &self.records[i];
        match row.kind {
            JobKind::Solve => {},
            JobKind::Bunching => return Err(JobError::NoTree { id: source, kind: "bunching" }),
            JobKind::Report => return Err(JobError::NoTree { id: source, kind: "report" }),
            JobKind::Dump => return Err(JobError::NoTree { id: source, kind: "dump" }),
        }
        if row.phase.is_terminal() {
            if !row.phase.is_readable() {
                return Err(JobError::NotReadable { id: source, phase: row.phase });
            }
            if !row.holds_product && row.saved_to.is_none() {
                return Err(JobError::NeverRan(source));
            }
        }
        Ok(())
    }

    /// Whether a report job's result can be served: only a report's, and only once it is done —
    /// a cancelled or failed report kept nothing.
    ///
    /// # Errors
    ///
    /// `NoSuchJob`, `NotReport`, or `ReportNotReady` with the report's phase.
    pub fn check_report_result(&self, id: JobId) -> (r: Result<(), JobError>)
        requires
            self.wf(),
        ensures
            r == (if !self.jobs().contains_key(id) {
                Err(JobError::NoSuchJob(id))
            } else if !(self.jobs()[id].kind is Report) {
                Err(JobError::NotReport(id))
            } else if !(self.jobs()[id].phase is Done) {
                Err(JobError::ReportNotReady { id, phase: self.jobs()[id].phase })
            } else {
                Ok(())
            }),
    {
        let i = match self.find(id) {
            Some(i) => i,
            None => return Err(JobError::NoSuchJob(id)),
        };
        let row = &self.records[i];
        if !matches!(row.kind, JobKind::Report) {
            return Err(JobError::NotReport(id));
        }
        if !matches!(row.phase, Phase::Done) {
            return Err(JobError::ReportNotReady { id, phase: row.phase });
        }
        Ok(())
    }

    /// How a job's solved tree can be read — by `node`, `bestResponse` and the analysis jobs:
    /// only a solve's, only once finished or cancelled; from memory if it is held, else
    /// reloaded from the file it was saved to.
    ///
    /// # Errors
    ///
    /// `NoSuchJob`; `NotBunchingReadable` for a preparation; `NoTree` for a report or dump;
    /// `NotReadable` for a job not yet finished; `NeverRan` for a job cancelled before it
    /// started, which has neither a tree nor a file.
    pub fn tree_access(&self, id: JobId) -> (r: Result<TreeAccess, JobError>)
        requires
            self.wf(),
        ensures
            !self.jobs().contains_key(id) ==> (r matches Err(e) && e == JobError::NoSuchJob(id)),
            self.jobs().contains_key(id) && self.jobs()[id].kind is Bunching ==> (r matches Err(e)
                && e == JobError::NotBunchingReadable(id)),
            self.jobs().contains_key(id) && self.jobs()[id].kind is Report ==> (r matches Err(
                JobError::NoTree { id: i, kind },
            ) && i == id && kind@ == "report"@),
            self.jobs().contains_key(id) && self.jobs()[id].kind is Dump ==> (r matches Err(
                JobError::NoTree { id: i, kind },
            ) && i == id && kind@ == "dump"@),
            self.jobs().contains_key(id) && self.jobs()[id].kind is Solve
                && !self.jobs()[id].phase.spec_is_readable() ==> (r matches Err(e) && e
                == JobError::NotReadable { id, phase: self.jobs()[id].phase }),
            self.jobs().contains_key(id) && self.jobs()[id].kind is Solve
                && self.jobs()[id].phase.spec_is_readable() ==> (if self.jobs()[id].holds_product {
                r is Ok && r->Ok_0 is Resident
            } else if self.jobs()[id].saved_to is None {
                r matches Err(e) && e == JobError::NeverRan(id)
            } else {
                r matches Ok(TreeAccess::Reload(p)) && Some(p@) == self.jobs()[id].saved_to
            }),
    {
        let i = match self.find(id) {
            Some(i) => i,
            None => return Err(JobError::NoSuchJob(id)),
        };
        let row = &self.records[i];
        match row.kind {
            JobKind::Solve => {},
            JobKind::Bunching => return Err(JobError::NotBunchingReadable(id)),
            JobKind::Report => return Err(JobError::NoTree { id, kind: "report" }),
            JobKind::Dump => return Err(JobError::NoTree { id, kind: "dump" }),
        }
        if !row.phase.is_readable() {
            return Err(JobError::NotReadable { id, phase: row.phase });
        }
        if row.holds_product {
            return Ok(TreeAccess::Resident);
        }
        match &row.saved_to {
            Some(path) => Ok(TreeAccess::Reload(path.clone())),
            None => Err(JobError::NeverRan(id)),
        }
    }

    /// A released solve's tree was read back from its file and is held again.
    pub fn mark_reloaded(&mut self, id: JobId) -> (applied: bool)
        requires
            old(self).wf(),
        ensures
            final(self).wf(),
            applied == (old(self).jobs().contains_key(id) && old(self).jobs()[id].kind is Solve),
            applied ==> final(self).jobs() == old(self).jobs().insert(
                id,
                JobView { holds_product: true, resident: true, ..old(self).jobs()[id] },
            ),
            !applied ==> *final(self) == *old(self),
            keeps_terminal(old(self).jobs(), final(self).jobs()),
            final(self).ids() == old(self).ids(),
            final(self).queue() == old(self).queue(),
            final(self).next_id() == old(self).next_id(),
            final(self).stopping() == old(self).stopping(),
    {
        match self.find(id) {
            Some(i) => {
                if matches!(self.records[i].kind, JobKind::Solve) {
                    let mut row = self.records[i].snapshot();
                    row.holds_product = true;
                    row.resident = true;
                    self.replace_row(i, row);
                    return true;
                }
                false
            },
            None => false,
        }
    }

    /// Whether a spot may name preparation job `job_id` for its bunching data: the job must be a
    /// preparation, and one that is terminal must still hold its data or have a file. One still
    /// queued or running is fine — the queue runs it before the solve.
    ///
    /// # Errors
    ///
    /// `NoSuchJob`, `NotBunching`, or `BunchingNotReady` with the preparation's phase.
    pub fn check_bunching_ref(&self, job_id: JobId) -> (r: Result<(), JobError>)
        requires
            self.wf(),
        ensures
            r == bunching_ref_check(self.jobs(), job_id),
    {
        let i = match self.find(job_id) {
            Some(i) => i,
            None => return Err(JobError::NoSuchJob(job_id)),
        };
        let row = &self.records[i];
        if !matches!(row.kind, JobKind::Bunching) {
            return Err(JobError::NotBunching { id: job_id });
        }
        if row.phase.is_terminal() && !row.holds_product && row.saved_to.is_none() {
            return Err(JobError::BunchingNotReady { id: job_id, phase: row.phase });
        }
        Ok(())
    }

    /// Where a solve finds preparation job `job_id`'s data at the moment it needs it: the data
    /// the job holds, else the file it was saved to.
    ///
    /// # Errors
    ///
    /// `NoSuchJob`, `NotBunching`, or `BunchingNotReady` for a preparation with neither.
    pub fn bunching_source(&self, job_id: JobId) -> (r: Result<BunchingSource, JobError>)
        requires
            self.wf(),
        ensures
            !self.jobs().contains_key(job_id) ==> (r matches Err(e) && e == JobError::NoSuchJob(
                job_id,
            )),
            self.jobs().contains_key(job_id) && !(self.jobs()[job_id].kind is Bunching) ==> (r matches Err(
                e,
            ) && e == JobError::NotBunching { id: job_id }),
            self.jobs().contains_key(job_id) && self.jobs()[job_id].kind is Bunching ==> (if self.jobs()[job_id].holds_product {
                r is Ok && r->Ok_0 is Held
            } else if self.jobs()[job_id].saved_to is None {
                r matches Err(e) && e == JobError::BunchingNotReady {
                    id: job_id,
                    phase: self.jobs()[job_id].phase,
                }
            } else {
                r matches Ok(BunchingSource::File(p)) && Some(p@) == self.jobs()[job_id].saved_to
            }),
    {
        let i = match self.find(job_id) {
            Some(i) => i,
            None => return Err(JobError::NoSuchJob(job_id)),
        };
        let row = &self.records[i];
        if !matches!(row.kind, JobKind::Bunching) {
            return Err(JobError::NotBunching { id: job_id });
        }
        if row.holds_product {
            return Ok(BunchingSource::Held);
        }
        match &row.saved_to {
            Some(path) => Ok(BunchingSource::File(path.clone())),
            None => Err(JobError::BunchingNotReady { id: job_id, phase: row.phase }),
        }
    }
}

/// A job someone asked to stop is never handed to the worker afterwards: whether the cancel
/// found it queued or already claimed, it is no longer claimable — so a job announced as
/// cancelled is never hauled back to `Building`.
pub proof fn law_a_cancelled_job_is_never_claimed(jobs: Map<JobId, JobView>, id: JobId)
    requires
        jobs.contains_key(id),
    ensures
        !claimable(jobs.insert(id, after_cancel(jobs[id])), id),
        after_cancel(jobs[id]).phase.spec_is_terminal() || !(after_cancel(jobs[id]).phase is Queued),
{
}

/// A finished solve can always be read: its tree is held, or it was saved to a file it can be
/// reloaded from — so reading it never answers that it never ran.
pub proof fn law_a_done_solve_is_readable(book: JobBook, id: JobId)
    requires
        book.wf(),
        book.jobs().contains_key(id),
        book.jobs()[id].kind is Solve,
        book.jobs()[id].phase is Done,
    ensures
        book.jobs()[id].holds_product || book.jobs()[id].saved_to is Some,
{
    let j = choose|j: int| 0 <= j < book.records@.len() && book.records@[j].job_id == id;
    book.lemma_at(j);
}

/// Every id the ledger holds is listed once, in ascending order, is below the counter, and
/// names its own row.
pub proof fn law_ids_are_the_jobs(book: JobBook)
    requires
        book.wf(),
    ensures
        forall|id: JobId| book.jobs().contains_key(id) <==> book.ids().contains(id),
        forall|i: int, j: int|
            0 <= i < j < book.ids().len() ==> book.ids()[i] < book.ids()[j],
        forall|id: JobId| #[trigger]
            book.jobs().contains_key(id) ==> id < book.next_id() && book.jobs()[id].job_id == id,
{
    assert forall|id: JobId| book.jobs().contains_key(id) <==> book.ids().contains(id) by {
        if book.jobs().contains_key(id) {
            let j = choose|j: int| 0 <= j < book.records@.len() && book.records@[j].job_id == id;
            assert(book.ids()[j] == id);
        }
        if book.ids().contains(id) {
            let j = choose|j: int| 0 <= j < book.ids().len() && book.ids()[j] == id;
            book.lemma_at(j);
        }
    }
    assert forall|id: JobId| #[trigger] book.jobs().contains_key(id) implies id < book.next_id()
        && book.jobs()[id].job_id == id by {
        let j = choose|j: int| 0 <= j < book.records@.len() && book.records@[j].job_id == id;
        book.lemma_at(j);
    }
}

/// Accept a spot whose text already validated. When it names preparation job `bunching_job`
/// for its bunching data, the reference is checked now rather than when the solve starts: the
/// job must be a preparation that is running, queued, or still has its data, and the spot's
/// flop (`spot_flop`, its first three cards sorted, by name) must be the flop the preparation
/// was made for (`prepared_flop`). The solve is then queued like any job.
///
/// # Errors
///
/// The reference's refusal (see [`bunching_ref_check`]), or a bunching error naming both flops.
pub fn submit_solve(
    book: &mut JobBook,
    bunching_job: Option<JobId>,
    prepared_flop: &Vec<String>,
    spot_flop: &Vec<String>,
) -> (r: Result<JobId, JobError>)
    requires
        old(book).wf(),
        old(book).next_id() < u64::MAX,
    ensures
        final(book).wf(),
        bunching_job matches Some(j) ==> (bunching_ref_check(old(book).jobs(), j) is Err ==> r
            == Err::<JobId, JobError>(bunching_ref_check(old(book).jobs(), j)->Err_0)),
        bunching_job matches Some(j) ==> (bunching_ref_check(old(book).jobs(), j) is Ok
            && string_views(prepared_flop@) != string_views(spot_flop@) ==> (r matches Err(
            JobError::Engine(EngineError::Spot(SpotError::Bunching { reason })),
        ) && reason@ == flop_mismatch_text(j, prepared_flop@, spot_flop@))),
        r is Err ==> *final(book) == *old(book),
        r is Ok <==> (bunching_job matches Some(j) ==> bunching_ref_check(old(book).jobs(), j) is Ok
            && string_views(prepared_flop@) == string_views(spot_flop@)),
        r matches Ok(id) ==> id == old(book).next_id() && final(book).jobs() == old(
            book,
        ).jobs().insert(id, queued_view(id, JobKind::Solve)) && final(book).queue() == old(
            book,
        ).queue().push(id) && final(book).next_id() == id + 1,
{
    match bunching_job {
        Some(j) => {
            match book.check_bunching_ref(j) {
                Ok(()) => {},
                Err(e) => return Err(e),
            }
            match check_bunching_flop(j, prepared_flop, spot_flop) {
                Ok(()) => {},
                Err(e) => return Err(e),
            }
        },
        None => {},
    }
    Ok(book.enqueue(JobKind::Solve))
}

/// A solve can be the source of a report or dump while it is queued, building or running — the
/// queue runs it first — and, once terminal, exactly when it finished or was cancelled and its
/// tree is held or saved. Anything else, and any job that is not a solve, is refused.
pub proof fn law_an_unfinished_solve_is_a_valid_source(jobs: Map<JobId, JobView>, s: JobId)
    ensures
        jobs.contains_key(s) && jobs[s].kind is Solve && !jobs[s].phase.spec_is_terminal()
            ==> analysis_source_check(jobs, s) is Ok,
        analysis_source_check(jobs, s) is Ok <==> (jobs.contains_key(s) && jobs[s].kind is Solve && (
        !jobs[s].phase.spec_is_terminal() || ((jobs[s].phase is Done || jobs[s].phase is Cancelled)
            && (jobs[s].holds_product || jobs[s].saved_to is Some)))),
        jobs.contains_key(s) && jobs[s].kind is Solve && jobs[s].phase is Failed
            ==> analysis_source_check(jobs, s) == Err::<(), JobError>(
            JobError::NotReadable { id: s, phase: Phase::Failed },
        ),
{
}

/// A spot may name a preparation job while it is queued or running, and once terminal only if
/// it still holds its data or saved it to a file; a job of another kind is never a preparation.
pub proof fn law_a_preparation_serves_while_it_has_data(jobs: Map<JobId, JobView>, j: JobId)
    ensures
        bunching_ref_check(jobs, j) is Ok <==> (jobs.contains_key(j) && jobs[j].kind is Bunching && (
        !jobs[j].phase.spec_is_terminal() || jobs[j].holds_product || jobs[j].saved_to is Some)),
{
}

} // verus!
