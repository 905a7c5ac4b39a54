use pkwiz_solver::convert::Action;
use pkwiz_solver::spot::{
    bunching_flop, check_lock_shape, check_spot_amounts, default_compression_level, parse_edit_lines, parse_lines,
    render_line, BoardSpec, BunchingRef, SpotError, StreetSizing,
};

#[test]
fn a_board_is_the_street() {
    let flop = BoardSpec::Text("Td9d6h".to_owned()).cards().unwrap();
    assert_eq!(flop.len(), 3);
    assert_eq!(
        BoardSpec::Text("Td 9d 6h Qc".to_owned())
            .cards()
            .unwrap()
            .len(),
        4
    );
    assert_eq!(
        BoardSpec::Cards(vec![
            "Td".into(),
            "9d".into(),
            "6h".into(),
            "Qc".into(),
            "2s".into()
        ])
        .cards()
        .unwrap()
        .len(),
        5
    );
    assert_eq!(
        flop.iter().map(|c| c.render()).collect::<String>(),
        "Td9d6h"
    );
}

#[test]
fn a_bad_board_says_what_is_wrong_with_it() {
    for (board, needle) in [
        ("Td9d", "three, four or five"),
        ("Td9d6hQc2s3c", "three, four or five"),
        ("Td9d6", "odd number"),
        ("TdTd6h", "appears twice"),
        ("TdXX6h", "X"),
    ] {
        let err = BoardSpec::Text(board.to_owned()).cards().unwrap_err();
        let message = err.message();
        assert!(
            message.contains(needle),
            "{board}: {message} lacks {needle}"
        );
    }
}

#[test]
fn empty_sizing_is_a_check_through_tree_not_an_error() {
    let options = StreetSizing::none();
    assert!(options.bet.is_empty() && options.raise.is_empty());
    let usual = StreetSizing::default();
    assert_eq!(usual.bet, "50%");
    assert_eq!(usual.raise, "2.5x");
}

#[test]
fn a_bunching_flop_is_exactly_three_cards() {
    let err = bunching_flop(&BoardSpec::Text("Td9d6hQc".to_owned())).unwrap_err();
    let message = err.message();
    assert!(message.contains("exactly three cards"), "{message}");
    assert_eq!(message, "`Td9d6hQc` is not a board: a bunching flop is exactly three cards; got 4");
    let flop = bunching_flop(&BoardSpec::Cards(vec!["Td".into(), "9d".into(), "6h".into()])).unwrap();
    assert_eq!(flop.iter().map(|c| c.index()).collect::<Vec<_>>(), vec![33, 29, 18]);
}

#[test]
fn validation_rejects_what_the_engine_would_only_discover_later() {
    assert!(matches!(
        check_spot_amounts(0, 500, true, true, 1000, 10),
        Err(SpotError::Amount { field: "pot", .. })
    ));
    assert!(matches!(
        check_spot_amounts(100, -1, true, true, 1000, 10),
        Err(SpotError::Amount { field: "effectiveStack", .. })
    ));
    assert!(matches!(
        check_spot_amounts(100, 500, false, true, 1000, 10),
        Err(SpotError::Amount { field: "rake.rate", .. })
    ));
    assert!(matches!(
        check_spot_amounts(100, 500, true, true, 0, 10),
        Err(SpotError::Amount { .. })
    ));
    assert_eq!(check_spot_amounts(100, 500, true, true, 1000, 10), Ok(()));
}

#[test]
fn amount_errors_name_their_field_in_order() {
    let e = check_spot_amounts(100, 500, true, false, 1000, 10).unwrap_err();
    assert_eq!(e.message(), "`rake.cap` must not be negative");
    let e = check_spot_amounts(100, 500, true, true, 1000, 0).unwrap_err();
    assert_eq!(e.message(), "`stop.checkInterval` must be at least one");
    let e = check_spot_amounts(0, 0, false, false, 0, 0).unwrap_err();
    assert_eq!(e.message(), "`pot` must be greater than zero");
}

#[test]
fn a_syntactically_bad_lock_fails_the_command_not_the_job() {
    let reason = |r: Result<(), SpotError>| match r {
        Err(SpotError::Lock { index, reason }) => (index, reason),
        other => panic!("{other:?}"),
    };
    assert_eq!(
        reason(check_lock_shape(0, &[], true, None, &[])),
        (0, "`strategy` needs at least one action row".to_owned())
    );
    assert_eq!(
        reason(check_lock_shape(1, &[0, 0], true, None, &[])),
        (1, "`strategy` rows need at least one hand column".to_owned())
    );
    assert_eq!(
        reason(check_lock_shape(2, &[3, 2], true, None, &[])),
        (2, "every `strategy` row must have the same number of hands".to_owned())
    );
    assert_eq!(
        reason(check_lock_shape(3, &[3, 3], false, None, &[])),
        (3, "`strategy` values must be finite and non-negative".to_owned())
    );
    assert_eq!(
        reason(check_lock_shape(4, &[3, 3], true, Some(2), &[])),
        (4, "`hands` must have exactly one entry per `strategy` column".to_owned())
    );
    assert_eq!(
        reason(check_lock_shape(5, &[3, 3], true, Some(3), &[0, usize::MAX])),
        (5, "`history` entries must be explicit indices".to_owned())
    );
    assert_eq!(check_lock_shape(6, &[3, 3], true, Some(3), &[0, 1]), Ok(()));
    let e = check_lock_shape(7, &[], true, None, &[]).unwrap_err();
    assert_eq!(e.message(), "`locks[7]` is invalid: `strategy` needs at least one action row");
}

#[test]
fn bad_edits_fail_the_command_synchronously_and_name_the_line() {
    let lines = vec!["Check, Bet(50)".to_owned(), "Check, Banana".to_owned()];
    let err = parse_lines(&lines).unwrap_err();
    match &err {
        SpotError::Line { line, .. } => assert_eq!(line, "Check, Banana"),
        other => panic!("{other:?}"),
    }
    assert!(err.message().contains("Check, Banana"));
    let ok = parse_lines(&["Check, Bet(50)".to_owned()]).unwrap();
    assert_eq!(ok, vec![vec![Action::Check, Action::Bet(50)]]);
}

#[test]
fn too_many_edit_lines_are_refused_before_any_is_parsed() {
    let many: Vec<String> = (0..513).map(|_| "Check".to_owned()).collect();
    let err = parse_edit_lines(&many, &[]).unwrap_err();
    assert_eq!(
        err,
        SpotError::Line { line: "…".to_owned(), reason: "too many lines (the cap is 512)".to_owned() }
    );
    let (added, removed) = parse_edit_lines(&["Check".to_owned()], &["Bet(10)".to_owned()]).unwrap();
    assert_eq!(added, vec![vec![Action::Check]]);
    assert_eq!(removed, vec![vec![Action::Bet(10)]]);
}

#[test]
fn a_line_renders_as_its_actions() {
    assert_eq!(render_line(&[]), "(root)");
    assert_eq!(render_line(&[Action::Check, Action::Bet(50), Action::Call]), "Check, Bet(50), Call");
    let back = parse_lines(&[render_line(&[Action::Raise(120), Action::Fold])]).unwrap();
    assert_eq!(back, vec![vec![Action::Raise(120), Action::Fold]]);
}

#[test]
fn spots_default_to_compression_level_three() {
    assert_eq!(default_compression_level(), Some(3));
    assert_eq!(BunchingRef::Job { job_id: 7 }, BunchingRef::Job { job_id: 7 });
}

#[test]
fn rendered_card_names_read_back_as_the_board() {
    let ids = [51u8, 0, 33, 18];
    let names: Vec<String> = ids.iter().map(|&i| pkwiz_solver::cards::render_card(i)).collect();
    let cards = BoardSpec::Cards(names.clone()).cards().unwrap();
    assert_eq!(cards.iter().map(|c| c.index()).collect::<Vec<_>>(), ids.to_vec());
    assert_eq!(BoardSpec::Cards(names).display(), "As2cTd6h");
}
