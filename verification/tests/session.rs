use pkwiz_solver::jobs::{overall_percent, sorted_flop, JobError, JobKind, Phase};
use pkwiz_solver::cards::Card;
use pkwiz_solver::{describe_panic, is_blank, Emit, ErrorBody, Silent};

#[test]
fn a_panic_in_the_engine_becomes_a_response_not_a_dead_session() {
    assert_eq!(describe_panic(Some("boom")), "internal panic: boom");
    assert_eq!(describe_panic(None), "internal panic: unknown payload");
}

#[test]
fn blank_lines_are_skipped() {
    assert!(is_blank(""));
    assert!(is_blank("  \t\r"));
    assert!(is_blank("\u{3000}\u{a0}"));
    assert!(!is_blank(" {} "));
}

#[test]
fn an_unknown_job_is_reported_not_fatal() {
    let body = ErrorBody::of_job_error(&JobError::NoSuchJob(42));
    assert_eq!(body.code, "no_such_job");
    assert_eq!(body.message, "no job 42");
}

#[test]
fn every_job_error_has_its_code_and_message() {
    let cases: Vec<(JobError, &str, String)> = vec![
        (JobError::NotReadable { id: 3, phase: Phase::Running }, "not_readable",
            "job 3 is Running; its strategy can only be read once it has finished or been cancelled".to_owned()),
        (JobError::NothingToSave(4), "nothing_to_save", "job 4 has no solution to save".to_owned()),
        (JobError::NotFinished { id: 5, phase: Phase::Queued }, "not_finished",
            "job 5 is Queued; it can only be forgotten once it is finished, cancelled, or failed — cancel it first".to_owned()),
        (JobError::NeverRan(6), "never_ran", "job 6 was cancelled before it started; it never produced a strategy".to_owned()),
        (JobError::BadHistory { index: 7, available: 2 }, "bad_node",
            "action index 7 is out of range at that node, which offers 2".to_owned()),
        (JobError::NoStrategy { kind: "terminal" }, "bad_node",
            "the node reached by that history is a terminal node, which has no strategy".to_owned()),
        (JobError::NotBunching { id: 8 }, "not_bunching", "job 8 is a solve, not a bunching preparation".to_owned()),
        (JobError::BunchingNotReady { id: 9, phase: Phase::Failed }, "bunching_not_ready",
            "bunching preparation 9 is Failed and has no data; prepare it again".to_owned()),
        (JobError::BunchingUnavailable { id: 10, reason: "gone".to_owned() }, "bunching_unavailable",
            "job 10 was solved with bunching data that could not be re-established: gone".to_owned()),
        (JobError::BadPlayer(2), "bad_player", "player must be 0 (OOP) or 1 (IP), got 2".to_owned()),
        (JobError::NotReport(11), "not_report", "job 11 is not a report job, so it has no report result".to_owned()),
        (JobError::ReportNotReady { id: 12, phase: Phase::Cancelled }, "not_readable",
            "report 12 is Cancelled; its result exists only once it is done".to_owned()),
        (JobError::NotRecoverable(13), "not_recoverable",
            "job 13 has not been saved to a file, so releasing its tree would discard it; save it first, or use `forget` to discard it deliberately".to_owned()),
        (JobError::NotBunchingReadable(14), "not_readable",
            "job 14 is a bunching preparation; it has no strategy to read".to_owned()),
    ];
    for (e, code, message) in cases {
        assert_eq!(e.code(), code);
        assert_eq!(e.message(), message);
        let body = ErrorBody::of_job_error(&e);
        assert_eq!(body.code, code);
        assert_eq!(body.message, message);
    }
}

#[test]
fn preparation_progress_spreads_over_three_stages() {
    assert_eq!(overall_percent(1, 0), 0);
    assert_eq!(overall_percent(1, 100), 33);
    assert_eq!(overall_percent(2, 50), 50);
    assert_eq!(overall_percent(3, 100), 100);
}

#[test]
fn a_flop_is_compared_sorted_by_card_id() {
    let board: Vec<Card> = ["Td", "9d", "6h", "Qc"].iter().map(|c| Card::parse(c).unwrap()).collect();
    assert_eq!(sorted_flop(&board), vec!["6h".to_owned(), "9d".to_owned(), "Td".to_owned()]);
}

#[test]
fn phases_and_kinds_have_names() {
    assert!(Phase::Done.is_terminal() && Phase::Done.is_readable());
    assert!(Phase::Failed.is_terminal() && !Phase::Failed.is_readable());
    assert!(!Phase::Running.is_terminal());
    assert_eq!(Phase::Building.name(), "Building");
    assert_eq!(JobKind::Dump.label(), "dump");
    Silent.emit("ignored".to_owned());
}

#[test]
fn stage_progress_is_the_plain_formula_even_past_a_full_stage() {
    assert_eq!(overall_percent(3, 255), 151);
    assert_eq!(overall_percent(2, 0), 33);
}
