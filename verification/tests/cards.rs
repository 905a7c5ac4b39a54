use pkwiz_solver::cards::{render_card, Card};

#[test]
fn a_card_name_reads_back_as_the_card() {
    for i in 0..52u8 {
        let c = Card::from_index(i).unwrap();
        let name = c.render();
        assert_eq!(name.len(), 2);
        assert_eq!(Card::parse(&name).unwrap(), c);
        assert_eq!(Card::parse(&name).unwrap().index(), i);
    }
}

#[test]
fn names_follow_rank_then_suit() {
    assert_eq!(render_card(0), "2c");
    assert_eq!(render_card(1), "2d");
    assert_eq!(render_card(34), "Th");
    assert_eq!(render_card(51), "As");
    assert_eq!(render_card(52), "??");
    assert_eq!(Card::parse("Td").unwrap().index(), 33);
}

#[test]
fn a_bad_card_says_what_was_expected() {
    assert_eq!(
        Card::parse("1x").unwrap_err(),
        "`1x` is not a card; expected a rank (2-9, T, J, Q, K, A) then a suit (c, d, h, s)"
    );
    assert!(Card::parse("Tdd").is_err());
    assert!(Card::parse("").is_err());
    assert!(Card::from_index(52).is_none());
}
