use pkwiz_solver::classify::{classify, Draws, MadeHand};
use pkwiz_solver::classify::MadeHand::{
    Flush, FullHouse, HighCard, Overpair, PocketSet, Quads, SecondPair, Straight, StraightFlush, TopPair, Trips, TwoPair,
    Underpair, WeakPair,
};

/// `"AsKd"` → card ids, so the cases below read like hands.
fn cards(s: &str) -> Vec<u8> {
    s.as_bytes()
        .chunks(2)
        .map(|c| {
            let rank = b"23456789TJQKA"
                .iter()
                .position(|&r| r == c[0])
                .expect("a rank") as u8;
            let suit = b"cdhs".iter().position(|&x| x == c[1]).expect("a suit") as u8;
            rank * 4 + suit
        })
        .collect()
}

fn run(hole: &str, board: &str) -> (MadeHand, Draws) {
    let h = cards(hole);
    classify((h[0], h[1]), &cards(board))
}

#[test]
fn made_hand_categories_follow_the_table() {
    for (hole, board, made) in [
        ("AsAh", "Td9d6h", Overpair),
        ("JdJh", "Td9d6h", Overpair),
        ("8c8h", "Td9d6h", Underpair),
        ("5c5h", "Td9d6h", Underpair),
        ("9c9h", "Td9d6h", PocketSet),
        ("AcTc", "Td9d6h", TopPair),
        ("Ac9c", "Td9d6h", SecondPair),
        ("Ac6c", "Td9d6h", WeakPair),
        ("AcKd", "Td9d6h", HighCard),
        ("Th9h", "Td9d6h", TwoPair),
        ("Ac8d", "TdTh6h2c", HighCard),
        ("AcTc", "TdTh6h2c", Trips),
        ("6c6s", "TdTh2h3c", TwoPair),
        ("6c6s", "TdTh6h3c", FullHouse),
        ("Ac2d", "TdTh2h3c", TwoPair),
        ("AcKd", "TdThTs2c", HighCard),
        ("2c2d", "TdThTs4c", FullHouse),
        ("2c3c", "AsKsQsJsTs", StraightFlush),
        ("AcAd", "AsAhKs2d3c", Quads),
        ("AcKc", "AsAhKs2d", FullHouse),
        ("Ad2d", "KdQd7d6c", Flush),
        ("8d7c", "Td9h6h2c", Straight),
        ("AcKd", "QhJsTh9c2d", Straight),
    ] {
        let (m, _) = run(hole, board);
        assert_eq!(m, made, "{hole} on {board}");
    }
}

#[test]
fn draws_are_flush_and_straight_shaped() {
    let (m, d) = run("8d7d", "Td9d2h");
    assert_eq!(m, MadeHand::HighCard);
    assert!(d.flush_draw && d.open_ended && !d.gutshot, "{d:?}");

    let (m, d) = run("QcJc", "Td9d6h");
    assert_eq!(m, MadeHand::HighCard);
    assert!(!d.flush_draw && d.open_ended && !d.gutshot, "{d:?}");

    let (m, d) = run("KdQd", "Td9d6h");
    assert_eq!(m, MadeHand::HighCard);
    assert!(d.flush_draw && !d.open_ended && d.gutshot, "{d:?}");

    let (_, d) = run("Ac2c", "3d4h9s");
    assert!(!d.open_ended && d.gutshot, "{d:?}");

    let (_, d) = run("Ad2d", "Kd7c8s");
    assert!(!d.flush_draw, "{d:?}");

    let (_, d) = run("AcKc", "2d5d9dTd");
    assert!(!d.flush_draw, "{d:?}");

    let (_, d) = run("Ac2c", "9d8h7s6s");
    assert!(!d.open_ended && !d.gutshot, "{d:?}");
}

#[test]
fn river_boards_and_strong_hands_report_no_draws() {
    let (_, d) = run("8d7d", "Td9d2h3c4s");
    assert_eq!(d, Draws::default());

    let (m, d) = run("Ad2d", "KdQd7d6c");
    assert_eq!(m, MadeHand::Flush);
    assert_eq!(d, Draws::default());

    let (m, d) = run("8h7h", "Td9h6h2c");
    assert_eq!(m, MadeHand::Straight);
    assert!(d.flush_draw, "{d:?}");
}

#[test]
fn two_pair_on_the_board_falls_through_to_the_hole() {
    for (hole, board, made) in [
        ("AcKd", "TdTh6h6c", HighCard),
        ("AcAd", "TdTh6h6c", TwoPair),
        ("2c2d", "TdTh6h6c", Underpair),
        ("Ac6d", "TdTh6h6c", FullHouse),
        ("Ac6d", "TdTh6h2c", TwoPair),
    ] {
        let (m, _) = run(hole, board);
        assert_eq!(m, made, "{hole} on {board}");
    }
}

#[test]
fn an_unpaired_hole_never_makes_a_pocket_pair_class() {
    for (hole, board) in [("AcKd", "Td9d6h"), ("7c2d", "Td9d6h"), ("QcJd", "2c3d4h"), ("Ac9c", "Td9d6h2s")] {
        let (m, _) = run(hole, board);
        assert!(
            !matches!(m, MadeHand::Overpair | MadeHand::Underpair | MadeHand::PocketSet),
            "{hole} on {board}: {m:?}"
        );
    }
}

#[test]
fn open_ended_and_gutshot_never_hold_together() {
    for (hole, board) in [("8d7d", "Td9d2h"), ("KdQd", "Td9d6h"), ("JcTc", "9d8h2s"), ("6c5c", "4d3h9s")] {
        let (_, d) = run(hole, board);
        assert!(!(d.open_ended && d.gutshot), "{hole} on {board}: {d:?}");
    }
}
