use pkwiz_solver::engine::Stopped;
use pkwiz_solver::jobs::{JobError, JobKind, Phase};
use pkwiz_solver::ledger::{submit_solve, BunchingSource, JobBook, Outcome, TreeAccess};

fn solved(book: &mut JobBook, saved_to: Option<&str>) -> u64 {
    let id = book.enqueue(JobKind::Solve);
    assert_eq!(book.claim_next(), Some(id));
    assert!(book.start_running(id));
    assert!(book.finish(
        id,
        Outcome::Solved { stopped: Stopped::Converged, saved_to: saved_to.map(str::to_owned), save_error: None }
    ));
    id
}

#[test]
fn cancelling_a_queued_job_never_starts_it() {
    let mut book = JobBook::new();
    let first = book.enqueue(JobKind::Solve);
    let second = book.enqueue(JobKind::Solve);
    assert_eq!(book.status(second).unwrap().phase, Phase::Queued);
    assert_eq!(book.claim_next(), Some(first));

    let cancelled = book.cancel(second).unwrap();
    assert_eq!(cancelled.phase, Phase::Cancelled);
    assert_eq!(cancelled.stopped, Some(Stopped::Cancelled));

    book.cancel(first).unwrap();
    assert!(book.finish(first, Outcome::Solved { stopped: Stopped::Cancelled, saved_to: None, save_error: None }));
    // The queue drains without ever handing out the cancelled job.
    assert_eq!(book.claim_next(), None);
    assert_eq!(book.status(second).unwrap().phase, Phase::Cancelled);
    assert_eq!(book.list().len(), 2);
}

#[test]
fn a_terminal_frame_is_final_even_when_cancel_races_the_worker() {
    let mut book = JobBook::new();
    let mut ids = Vec::new();
    for round in 0..20 {
        let id = book.enqueue(JobKind::Solve);
        if round % 2 == 0 {
            // The cancel lands before the worker claims the job.
            book.cancel(id).unwrap();
            assert_eq!(book.claim_next(), None);
        } else {
            // The claim wins; the cancel only carries the request.
            assert_eq!(book.claim_next(), Some(id));
            let after = book.cancel(id).unwrap();
            assert_eq!(after.phase, Phase::Building);
            assert!(after.cancel_requested);
            assert!(book.finish(id, Outcome::Solved { stopped: Stopped::Cancelled, saved_to: None, save_error: None }));
        }
        ids.push(id);
    }
    for id in &ids {
        let before = book.status(*id).unwrap();
        assert_eq!(before.phase, Phase::Cancelled);
        // Nothing moves a terminal job again.
        assert!(!book.finish(*id, Outcome::Failed { message: "late".to_owned() }));
        assert!(!book.start_running(*id));
        let again = book.cancel(*id).unwrap();
        assert_eq!(again.phase, Phase::Cancelled);
        assert_eq!(again.stopped, Some(Stopped::Cancelled));
    }
    assert_eq!(ids.len(), 20);
}

#[test]
fn a_job_cancelled_while_queued_says_so_when_read() {
    let mut book = JobBook::new();
    let first = book.enqueue(JobKind::Solve);
    let second = book.enqueue(JobKind::Solve);
    assert_eq!(book.claim_next(), Some(first));
    book.cancel(second).unwrap();

    let err = match book.tree_access(second) {
        Err(e) => e,
        Ok(_) => panic!("a job cancelled while queued has no tree"),
    };
    assert_eq!(err, JobError::NeverRan(second));
    assert_eq!(err.code(), "never_ran");
}

#[test]
fn a_job_with_no_file_behind_it_refuses_to_be_released() {
    let mut book = JobBook::new();
    let done = solved(&mut book, None);
    assert!(book.status(done).unwrap().saved_to.is_none());

    let refused = book.check_release(done).unwrap_err();
    assert_eq!(refused.code(), "not_recoverable");
    assert!(book.status(done).unwrap().resident);
    assert!(matches!(book.tree_access(done), Ok(TreeAccess::Resident)));
}

#[test]
fn forget_discards_an_unsaved_job_and_its_row() {
    let mut book = JobBook::new();
    let done = solved(&mut book, None);
    assert_eq!(book.status(done).unwrap().phase, Phase::Done);
    assert_eq!(book.check_release(done), Err(JobError::NotRecoverable(done)));

    let last = book.forget(done).unwrap();
    assert_eq!(last.phase, Phase::Done);
    assert!(book.list().iter().all(|j| j.job_id != done));
    assert_eq!(book.status(done).unwrap_err(), JobError::NoSuchJob(done));
    assert_eq!(book.forget(done).unwrap_err(), JobError::NoSuchJob(done));
    // The id is never handed out again.
    assert!(book.enqueue(JobKind::Solve) > done);
}

#[test]
fn a_job_that_is_not_finished_refuses_to_be_forgotten() {
    let mut book = JobBook::new();
    let id = book.enqueue(JobKind::Solve);
    assert_eq!(book.claim_next(), Some(id));
    assert!(book.start_running(id));
    assert_eq!(book.forget(id).unwrap_err(), JobError::NotFinished { id, phase: Phase::Running });
    book.cancel(id).unwrap();
    assert!(book.finish(id, Outcome::Solved { stopped: Stopped::Cancelled, saved_to: None, save_error: None }));
    assert_eq!(book.forget(id).unwrap().phase, Phase::Cancelled);
}

#[test]
fn releasing_a_saved_job_hands_back_its_tree_and_reading_it_reloads() {
    let mut book = JobBook::new();
    let id = solved(&mut book, Some("/tmp/a.bin"));
    assert_eq!(book.check_release(id), Ok(()));
    assert!(book.mark_released(id));
    let row = book.status(id).unwrap();
    assert!(!row.resident && !row.holds_product);
    assert_eq!(row.phase, Phase::Done);
    // Releasing again changes nothing.
    assert!(!book.mark_released(id));
    match book.tree_access(id) {
        Ok(TreeAccess::Reload(path)) => assert_eq!(path, "/tmp/a.bin"),
        _ => panic!("a released job reloads from its file"),
    }
    assert!(book.mark_reloaded(id));
    assert!(book.status(id).unwrap().resident);
    assert!(matches!(book.tree_access(id), Ok(TreeAccess::Resident)));
}

#[test]
fn node_queries_are_refused_until_there_is_something_to_read() {
    let mut book = JobBook::new();
    let id = book.enqueue(JobKind::Solve);
    assert!(matches!(
        book.tree_access(id),
        Err(JobError::NotReadable { phase: Phase::Queued, .. })
    ));
    assert!(matches!(book.tree_access(99), Err(JobError::NoSuchJob(99))));
    assert_eq!(book.check_save(id), Err(JobError::NothingToSave(id)));
}

#[test]
fn node_on_a_bunching_job_is_not_readable() {
    let mut book = JobBook::new();
    let prep = book.enqueue(JobKind::Bunching);
    assert_eq!(book.claim_next(), Some(prep));
    assert!(book.finish(prep, Outcome::Prepared { saved_to: None, save_error: None }));
    let err = match book.tree_access(prep) {
        Err(e) => e,
        Ok(_) => panic!("a preparation has no strategy"),
    };
    assert_eq!(err, JobError::NotBunchingReadable(prep));
    assert_eq!(err.code(), "not_readable");
    assert!(matches!(book.bunching_source(prep), Ok(BunchingSource::Held)));
}

#[test]
fn a_flop_mismatch_is_synchronous_for_job_refs() {
    let mut book = JobBook::new();
    let prep = book.enqueue(JobKind::Bunching);
    let prepared = vec!["6h".to_owned(), "9d".to_owned(), "Td".to_owned()];
    let spot = vec!["2c".to_owned(), "7d".to_owned(), "Th".to_owned()];
    let err = submit_solve(&mut book, Some(prep), &prepared, &spot).unwrap_err();
    assert_eq!(err.code(), "engine");
    assert_eq!(
        err.message(),
        format!("the bunching configuration is invalid: job {prep} prepared flop 6h9dTd but the spot's flop is 2c7dTh")
    );
    assert_eq!(book.list().len(), 1);
    let id = submit_solve(&mut book, Some(prep), &prepared, &prepared).unwrap();
    assert_eq!(book.status(id).unwrap().kind, JobKind::Solve);
    assert_eq!(submit_solve(&mut book, Some(id), &prepared, &prepared).unwrap_err(), JobError::NotBunching { id });
    assert_eq!(submit_solve(&mut book, Some(77), &prepared, &prepared).unwrap_err(), JobError::NoSuchJob(77));
}

#[test]
fn a_cancelled_preparation_serves_no_solve() {
    let mut book = JobBook::new();
    let prep = book.enqueue(JobKind::Bunching);
    assert_eq!(book.claim_next(), Some(prep));
    book.cancel(prep).unwrap();
    assert!(book.finish(prep, Outcome::Halted));
    assert_eq!(
        book.check_bunching_ref(prep),
        Err(JobError::BunchingNotReady { id: prep, phase: Phase::Cancelled })
    );
    assert_eq!(book.check_save(prep), Err(JobError::NothingToSave(prep)));
    assert!(book.bunching_source(prep).is_err());
}

#[test]
fn a_saved_preparation_reopens_and_serves_a_solve() {
    let mut book = JobBook::new();
    let opened = book.record_opened(JobKind::Bunching, "/tmp/p.bunching".to_owned());
    let row = book.status(opened).unwrap();
    assert_eq!(row.phase, Phase::Done);
    assert!(row.resident && row.holds_product);
    assert_eq!(book.check_bunching_ref(opened), Ok(()));
    assert!(book.mark_released(opened));
    match book.bunching_source(opened) {
        Ok(BunchingSource::File(path)) => assert_eq!(path, "/tmp/p.bunching"),
        _ => panic!("a released preparation is read back from its file"),
    }
    // Opened jobs are not queued.
    assert_eq!(book.claim_next(), None);
}

#[test]
fn the_sweep_spares_a_resident_bunching_job() {
    let mut book = JobBook::new();
    let prep = book.record_opened(JobKind::Bunching, "/tmp/p.bunching".to_owned());
    let a = solved(&mut book, Some("/tmp/a.bin"));
    let unsaved = solved(&mut book, None);
    let b = solved(&mut book, Some("/tmp/b.bin"));
    assert_eq!(book.sweep_candidates(None), vec![a, b]);
    assert_eq!(book.sweep_candidates(Some(b)), vec![a]);
    assert!(book.mark_released(a));
    assert_eq!(book.sweep_candidates(None), vec![b]);
    assert!(book.status(prep).unwrap().resident);
    assert!(book.status(unsaved).unwrap().resident);
}

#[test]
fn a_failed_job_keeps_its_reason() {
    let mut book = JobBook::new();
    let id = book.enqueue(JobKind::Solve);
    assert_eq!(book.claim_next(), Some(id));
    assert!(book.finish(id, Outcome::Failed { message: "internal panic: boom".to_owned() }));
    let row = book.status(id).unwrap();
    assert_eq!(row.phase, Phase::Failed);
    assert_eq!(row.error.as_deref(), Some("internal panic: boom"));
    assert!(matches!(book.tree_access(id), Err(JobError::NotReadable { phase: Phase::Failed, .. })));
    assert_eq!(book.check_release(id), Err(JobError::NotReadable { id, phase: Phase::Failed }));
}

#[test]
fn a_failed_save_keeps_the_answer_and_says_why() {
    let mut book = JobBook::new();
    let id = book.enqueue(JobKind::Solve);
    assert_eq!(book.claim_next(), Some(id));
    assert!(book.finish(
        id,
        Outcome::Solved { stopped: Stopped::IterationCap, saved_to: None, save_error: Some("disk full".to_owned()) }
    ));
    let row = book.status(id).unwrap();
    assert_eq!(row.phase, Phase::Done);
    assert_eq!(row.stopped, Some(Stopped::IterationCap));
    assert_eq!(row.error.as_deref(), Some("disk full"));
    assert_eq!(book.check_save(id), Ok(()));
    assert!(book.mark_saved(id, "/tmp/later.bin".to_owned()));
    assert_eq!(book.status(id).unwrap().saved_to.as_deref(), Some("/tmp/later.bin"));
}

#[test]
fn ids_count_up_from_one_and_the_list_is_oldest_first() {
    let mut book = JobBook::new();
    let a = book.enqueue(JobKind::Solve);
    let b = book.enqueue(JobKind::Bunching);
    let c = book.record_opened(JobKind::Solve, "/tmp/c.bin".to_owned());
    assert_eq!((a, b, c), (1, 2, 3));
    let ids: Vec<u64> = book.list().iter().map(|r| r.job_id).collect();
    assert_eq!(ids, vec![1, 2, 3]);
    book.cancel(a).unwrap();
    book.forget(a).unwrap();
    let ids: Vec<u64> = book.list().iter().map(|r| r.job_id).collect();
    assert_eq!(ids, vec![2, 3]);
    assert_eq!(book.enqueue(JobKind::Report), 4);
}

#[test]
fn shutdown_stops_the_claims_but_keeps_the_rows() {
    let mut book = JobBook::new();
    let id = book.enqueue(JobKind::Solve);
    book.shutdown();
    assert_eq!(book.claim_next(), None);
    assert_eq!(book.status(id).unwrap().phase, Phase::Queued);
}
