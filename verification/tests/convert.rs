use pkwiz_solver::cards::{render_card, Card};
use pkwiz_solver::convert::{action_from_str, action_to_string, from_engine_card, hole_to_string, to_engine_card, Action};

#[test]
fn actions_round_trip_between_render_and_parse() {
    for action in [
        Action::Fold,
        Action::Check,
        Action::Call,
        Action::Bet(1),
        Action::Raise(188),
        Action::AllIn(i32::MAX),
    ] {
        let rendered = action_to_string(&action);
        assert_eq!(action_from_str(&rendered), Ok(action), "{rendered}");
    }
    for bad in [
        "",
        "bet(50)",
        "Bet(0)",
        "Bet(-5)",
        "Bet(2147483648)",
        "Bet(50",
        "None",
    ] {
        assert!(action_from_str(bad).is_err(), "`{bad}` should not parse");
    }
    assert!(action_from_str("Chance(Qc)")
        .unwrap_err()
        .contains("chance actions are omitted"));
}

#[test]
fn the_two_card_encodings_agree_on_all_fifty_two() {
    for i in 0..52u8 {
        let ours = Card::from_index(i).unwrap();
        let theirs = to_engine_card(ours);
        assert_eq!(theirs, i);
        assert_eq!(
            render_card(theirs),
            ours.render(),
            "card {i} renders differently on the two sides"
        );
        assert_eq!(from_engine_card(theirs).unwrap(), ours);
    }
    assert!(from_engine_card(52).is_err());
}

#[test]
fn actions_render_exactly() {
    assert_eq!(action_to_string(&Action::NoAction), "None");
    assert_eq!(action_to_string(&Action::Fold), "Fold");
    assert_eq!(action_to_string(&Action::Bet(50)), "Bet(50)");
    assert_eq!(action_to_string(&Action::Raise(-3)), "Raise(-3)");
    assert_eq!(action_to_string(&Action::AllIn(2147483647)), "AllIn(2147483647)");
    assert_eq!(action_to_string(&Action::Chance(51)), "Chance(As)");
    assert_eq!(action_to_string(&Action::Chance(52)), "Chance(?)");
}

#[test]
fn a_bad_action_names_what_was_expected() {
    assert_eq!(
        action_from_str("Limp"),
        Err("`Limp` is not an action; expected Fold, Check, Call, Bet(n), Raise(n) or AllIn(n)".to_owned())
    );
    assert_eq!(action_from_str("Bet(12)"), Ok(Action::Bet(12)));
    assert_eq!(action_from_str("AllIn(7)"), Ok(Action::AllIn(7)));
}

#[test]
fn hole_cards_render_higher_first() {
    assert_eq!(hole_to_string((0, 51)), Ok("As2c".to_owned()));
    assert_eq!(hole_to_string((51, 0)), Ok("As2c".to_owned()));
    assert_eq!(
        hole_to_string((7, 7)),
        Err("hole cards are the same card (id 7), which no deck deals".to_owned())
    );
    assert_eq!(
        hole_to_string((60, 1)),
        Err("engine returned card id 60, which is not a card".to_owned())
    );
    assert_eq!(
        from_engine_card(99).unwrap_err(),
        "engine returned card id 99, which is not a card"
    );
}
