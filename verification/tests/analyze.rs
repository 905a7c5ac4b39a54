use pkwiz_solver::analyze::{
    chance_children, check_line_step, check_report_base, line_label, default_grid, default_max_board_cards, default_simplify_board_cards,
    dealt_street, descends_chance, may_descend, meter_line, node_kind, submit_dump, submit_report, AnalyzeError,
    DumpInclude, DumpSpec, ReportKind, ReportSpec, FORMAT_VERSION,
};
use pkwiz_solver::engine::{BoardState, Stopped, WalkStep};
use pkwiz_solver::jobs::{JobError, JobKind, Phase};
use pkwiz_solver::ledger::{JobBook, Outcome};

fn report(job_id: u64) -> ReportSpec {
    ReportSpec { job_id, history: Vec::new(), kind: ReportKind::Runouts, line: Vec::new(), categories: false }
}

fn dump(job_id: u64, path: &str) -> DumpSpec {
    DumpSpec {
        job_id,
        path: path.to_owned(),
        history: Vec::new(),
        max_board_cards: default_max_board_cards(),
        arrays: DumpInclude::default(),
        max_bytes: None,
        compress: false,
        compression_level: Some(3),
    }
}

#[test]
fn a_report_on_a_still_queued_source_runs_after_it() {
    let mut book = JobBook::new();
    let source = book.enqueue(JobKind::Solve);
    let rep = submit_report(&mut book, &report(source)).unwrap();
    assert_eq!(book.status(rep).unwrap().phase, Phase::Queued);
    // The queue runs the source first.
    assert_eq!(book.claim_next(), Some(source));
    assert!(book.finish(source, Outcome::Solved { stopped: Stopped::Converged, saved_to: None, save_error: None }));
    assert_eq!(book.claim_next(), Some(rep));
    assert_eq!(book.check_analysis_source(source), Ok(()));
}

#[test]
fn report_and_dump_errors_carry_stable_codes() {
    let mut book = JobBook::new();
    assert_eq!(submit_report(&mut book, &report(9)).unwrap_err().code(), "no_such_job");

    let prep = book.enqueue(JobKind::Bunching);
    let err = submit_report(&mut book, &report(prep)).unwrap_err();
    assert_eq!(err, JobError::NoTree { id: prep, kind: "bunching" });
    assert_eq!(err.code(), "not_readable");
    assert_eq!(err.message(), format!("job {prep} is a bunching job, which has no solved tree to read"));

    let source = book.enqueue(JobKind::Solve);
    let mut bad = report(source);
    bad.line = vec![usize::MAX];
    let err = submit_report(&mut book, &bad).unwrap_err();
    assert_eq!(err, JobError::BadHistory { index: usize::MAX, available: 0 });
    assert_eq!(err.code(), "bad_node");

    let err = submit_dump(&mut book, &dump(source, "")).unwrap_err();
    assert_eq!(err.code(), "engine");
    assert_eq!(err.message(), "`dump.path` must name a file");
    let mut shallow = dump(source, "/tmp/d.jsonl");
    shallow.max_board_cards = 2;
    assert_eq!(submit_dump(&mut book, &shallow).unwrap_err().message(), "`dump.maxBoardCards` must be 3, 4 or 5");

    let rep = submit_report(&mut book, &report(source)).unwrap();
    assert_eq!(
        submit_dump(&mut book, &dump(rep, "/tmp/d.jsonl")).unwrap_err(),
        JobError::NoTree { id: rep, kind: "report" }
    );
    let d = submit_dump(&mut book, &dump(source, "/tmp/d.jsonl")).unwrap();
    assert_eq!(book.status(d).unwrap().kind, JobKind::Dump);

    assert_eq!(book.check_report_result(rep), Err(JobError::ReportNotReady { id: rep, phase: Phase::Queued }));
    assert_eq!(book.check_report_result(d), Err(JobError::NotReport(d)));
    assert_eq!(JobError::NotReport(d).code(), "not_report");
}

#[test]
fn a_done_report_serves_its_result_and_a_dump_records_its_file() {
    let mut book = JobBook::new();
    let source = book.record_opened(JobKind::Solve, "/tmp/s.bin".to_owned());
    let rep = submit_report(&mut book, &report(source)).unwrap();
    let d = submit_dump(&mut book, &dump(source, "/tmp/d.jsonl")).unwrap();
    assert_eq!(book.claim_next(), Some(rep));
    assert!(book.finish(rep, Outcome::Reported));
    assert_eq!(book.check_report_result(rep), Ok(()));
    assert_eq!(book.claim_next(), Some(d));
    assert!(book.finish(d, Outcome::Dumped { path: "/tmp/d.jsonl".to_owned() }));
    assert_eq!(book.status(d).unwrap().saved_to.as_deref(), Some("/tmp/d.jsonl"));
    assert_eq!(book.check_save(d), Err(JobError::NothingToSave(d)));
    assert_eq!(book.check_save(rep), Err(JobError::NothingToSave(rep)));
}

#[test]
fn a_dump_stops_at_the_street_bound() {
    assert!(descends_chance(BoardState::River, 3, 5));
    assert!(descends_chance(BoardState::River, 4, 5));
    assert!(!descends_chance(BoardState::River, 3, 3));
    assert!(descends_chance(BoardState::River, 3, 4));
    assert!(!descends_chance(BoardState::River, 4, 4));
    assert!(!may_descend(BoardState::Flop, 3));
    assert!(may_descend(BoardState::Turn, 3));
    assert!(!may_descend(BoardState::Turn, 4));
    assert!(!descends_chance(BoardState::Turn, 4, 5));
    assert_eq!(dealt_street(3), "turn");
    assert_eq!(dealt_street(4), "river");
}

#[test]
fn a_dump_past_max_bytes_fails_and_says_by_how_much() {
    assert_eq!(meter_line(100, 20, None), Ok(120));
    assert_eq!(meter_line(100, 20, Some(120)), Ok(120));
    let err = meter_line(100, 21, Some(120)).unwrap_err();
    assert_eq!(err, AnalyzeError::TooBig { bytes: 121, limit: 120 });
    assert_eq!(
        err.message(),
        "the dump reached 121 bytes, past the maxBytes limit of 120; a partial file was left"
    );
}

#[test]
fn chance_children_are_the_dealable_representatives_in_card_order() {
    let mask = (1u64 << 3) | (1u64 << 7) | (1u64 << 20) | (1u64 << 44);
    assert_eq!(chance_children(mask, &[44, 3, 20]), vec![3, 20, 44]);
    // A representative that is not dealable means a suit swap above: every dealable card.
    assert_eq!(chance_children(mask, &[44, 5]), vec![3, 7, 20, 44]);
    assert_eq!(chance_children(mask, &[]), Vec::<u8>::new());
    // Cards above 51 are never dealt, whatever the mask says.
    assert_eq!(chance_children(mask | (1u64 << 60), &[2]), vec![3, 7, 20, 44]);
}

#[test]
fn a_runouts_line_may_not_cross_a_chance_node() {
    assert_eq!(check_line_step(0, 1, true, false, 3), Err(AnalyzeError::LineCrossesChance));
    assert_eq!(
        check_line_step(2, 1, false, true, 0),
        Err(AnalyzeError::Walk(2, "action index 1 plays past a terminal node".to_owned()))
    );
    assert_eq!(
        check_line_step(1, 4, false, false, 3),
        Err(AnalyzeError::Walk(1, "action index 4 is not available at that node, which offers 3".to_owned()))
    );
    assert_eq!(check_line_step(1, 2, false, false, 3), Ok(()));
    assert_eq!(
        AnalyzeError::LineCrossesChance.message(),
        "`line` reaches a chance node; lines may only contain decision-action indices"
    );
}

#[test]
fn a_bad_base_history_names_its_step() {
    let e = AnalyzeError::from_walk_step(WalkStep { depth: 3, index: 9, available: 2, is_chance: false });
    assert_eq!(e.message(), "history step 3 does not describe a node: action index 9 is not available at that node, which offers 2");
    let e = AnalyzeError::from_walk_step(WalkStep { depth: 0, index: 40, available: 45, is_chance: true });
    assert_eq!(e.message(), "history step 0 does not describe a node: card 40 is not available at that node, which offers 45");
    let e = AnalyzeError::BadBase { needed: "chance", actual: node_kind(false, false) };
    assert_eq!(e.message(), "the base history reaches a decision node, but this report needs a chance node");
    assert_eq!(node_kind(true, true), "terminal");
    assert_eq!(node_kind(false, true), "chance");
    assert_eq!(AnalyzeError::Cancelled.message(), "cancelled");
    assert_eq!(AnalyzeError::Io("denied".to_owned()).message(), "could not write the dump: denied");
    assert_eq!(
        AnalyzeError::StorageBoundary.message(),
        "the node sits at this file's storage boundary; the street below was not saved"
    );
}

#[test]
fn analysis_defaults_are_what_the_wire_promises() {
    assert_eq!(FORMAT_VERSION, 1);
    assert_eq!(default_max_board_cards(), 5);
    assert_eq!(default_simplify_board_cards(), 3);
    assert_eq!(default_grid(), 2);
    assert_eq!(
        DumpInclude::default(),
        DumpInclude { strategy: true, ev: false, equity: false, weights: false }
    );
}

#[test]
fn a_report_needs_the_right_kind_of_base() {
    assert_eq!(check_report_base(ReportKind::Runouts, false, true, BoardState::River, 3), Ok(()));
    assert_eq!(
        check_report_base(ReportKind::Runouts, false, false, BoardState::River, 3),
        Err(AnalyzeError::BadBase { needed: "chance", actual: "decision" })
    );
    assert_eq!(
        check_report_base(ReportKind::Runouts, false, true, BoardState::Flop, 3),
        Err(AnalyzeError::StorageBoundary)
    );
    assert_eq!(check_report_base(ReportKind::Lines, false, false, BoardState::Flop, 3), Ok(()));
    assert_eq!(
        check_report_base(ReportKind::Categories, true, false, BoardState::River, 5),
        Err(AnalyzeError::BadBase { needed: "decision", actual: "terminal" })
    );
}

#[test]
fn a_lines_row_names_its_line() {
    assert_eq!(line_label(&Vec::new()), "(root)");
    assert_eq!(line_label(&vec!["Check".to_owned()]), "Check");
    assert_eq!(line_label(&vec!["Check".to_owned(), "Bet(50)".to_owned(), "Call".to_owned()]), "Check, Bet(50), Call");
}
