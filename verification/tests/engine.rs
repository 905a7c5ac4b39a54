use pkwiz_solver::cards::Card;
use pkwiz_solver::engine::{loop_step, measures_after, Stopped};
use pkwiz_solver::engine::{
    check_bunching_peak, check_lock_hands, check_lock_target, check_walk_step, lock_walk_error, count_bits, initial_state, memory_budget, push_sample, sorted_flop_ids,
    BoardState, EngineError, MemoryEstimate, WalkStep, DEFAULT_MEMORY_LIMIT, MAX_SAMPLES, PEAK_BUNCHING_BYTES,
};

#[derive(Debug, Clone, Copy, PartialEq)]
struct Sample {
    iteration: u32,
    exploitability: f32,
}

#[test]
fn decimation_keeps_the_ends_and_bounds_the_middle() {
    let mut history = Vec::new();
    for i in 0..5000u32 {
        push_sample(
            &mut history,
            Sample {
                iteration: i,
                exploitability: 1.0 / f32::from(u16::try_from(i + 1).unwrap()),
            },
        );
    }
    assert!(history.len() <= MAX_SAMPLES, "{}", history.len());
    assert!(!history.is_empty());
    assert_eq!(history.last().unwrap().iteration, 4999);
    assert!(history.windows(2).all(|w| w[0].iteration < w[1].iteration));
}

#[test]
fn a_full_curve_halves_before_it_grows() {
    let mut history: Vec<u32> = (0..512).collect();
    push_sample(&mut history, 1000);
    assert_eq!(history.len(), 257);
    assert_eq!(history[0], 0);
    assert_eq!(history[1], 2);
    assert_eq!(history[255], 510);
    assert_eq!(history[256], 1000);
    let mut short: Vec<u32> = vec![1, 2, 3];
    push_sample(&mut short, 4);
    assert_eq!(short, vec![1, 2, 3, 4]);
}

#[test]
fn a_tree_too_big_for_its_budget_is_refused_with_a_number() {
    let err = memory_budget(5_000, 2_000, false, None, Some(4_000)).unwrap_err();
    assert_eq!(err, EngineError::TooBig { needed: 5_000, limit: 4_000, compressed: "" });
    assert_eq!(
        err.message(),
        "this tree needs 5000 bytes and the limit is 4000; raise `maxMemoryBytes`, shrink the ranges, or drop a bet size"
    );
    let err = memory_budget(5_000, 3_000, true, Some(2_000), Some(4_000)).unwrap_err();
    assert_eq!(err, EngineError::TooBig { needed: 5_000, limit: 4_000, compressed: " compressed" });
    let ok = memory_budget(5_000, 2_000, true, Some(1_000), None).unwrap();
    assert_eq!(
        ok,
        MemoryEstimate { uncompressed: 5_000, compressed: 2_000, allocated: 3_000, bunching_extra: Some(1_000) }
    );
    assert!(memory_budget(DEFAULT_MEMORY_LIMIT, 0, false, None, None).is_ok());
    assert!(memory_budget(DEFAULT_MEMORY_LIMIT + 1, 0, false, None, None).is_err());
}

#[test]
fn the_peak_memory_gate_refuses_before_allocating() {
    let err = check_bunching_peak(1, Some(1_000_000)).unwrap_err();
    assert_eq!(
        err,
        EngineError::BunchingTooBig { fold_players: 1, peak: PEAK_BUNCHING_BYTES[0], limit: 1_000_000 }
    );
    assert!(err.message().starts_with("preparing bunching data for 1 fold players peaks at 72808720 bytes"));
    assert!(check_bunching_peak(3, None).is_ok());
    assert!(check_bunching_peak(4, None).is_ok());
    assert!(check_bunching_peak(4, Some(3_000_000_000)).is_err());
}

#[test]
fn the_board_length_picks_the_starting_street() {
    assert_eq!(initial_state(3), BoardState::Flop);
    assert_eq!(initial_state(4), BoardState::Turn);
    assert_eq!(initial_state(5), BoardState::River);
}

#[test]
fn a_replay_step_says_why_it_was_refused() {
    assert_eq!(
        check_walk_step(2, 1, true, false, 0, 0),
        Err(WalkStep { depth: 2, index: 1, available: 0, is_chance: false })
    );
    let mask = (1u64 << 5) | (1u64 << 9) | (1u64 << 40);
    assert_eq!(check_walk_step(0, 9, false, true, mask, 0), Ok(()));
    assert_eq!(
        check_walk_step(0, 8, false, true, mask, 0),
        Err(WalkStep { depth: 0, index: 8, available: 3, is_chance: true })
    );
    assert_eq!(
        check_walk_step(0, 60, false, true, mask, 0),
        Err(WalkStep { depth: 0, index: 60, available: 3, is_chance: true })
    );
    assert_eq!(check_walk_step(1, 2, false, false, 0, 3), Ok(()));
    assert_eq!(
        check_walk_step(1, 3, false, false, 0, 3),
        Err(WalkStep { depth: 1, index: 3, available: 3, is_chance: false })
    );
    assert_eq!(count_bits(mask), 3);
    assert_eq!(count_bits(u64::MAX), 64);
}

#[test]
fn a_flop_sorts_by_card_id() {
    let board: Vec<Card> = ["Td", "9d", "6h", "Qc"].iter().map(|c| Card::parse(c).unwrap()).collect();
    assert_eq!(sorted_flop_ids(&board), (18, 29, 33));
}

#[test]
fn engine_errors_wrap_spot_errors_verbatim() {
    let inner = pkwiz_solver::spot::SpotError::EmptyRange { player: "oop" };
    assert_eq!(
        EngineError::Spot(inner.clone()).message(),
        inner.message()
    );
    assert_eq!(inner.message(), "the oop range has no combinations left once the board is removed");
    assert_eq!(
        EngineError::Load { path: "/x".to_owned(), reason: "gone".to_owned() }.message(),
        "could not read a solution from `/x`: gone"
    );
}

#[test]
fn a_structurally_bad_lock_fails_the_job_with_its_name() {
    let e = lock_walk_error(2, WalkStep { depth: 1, index: 7, available: 3, is_chance: false });
    assert_eq!(e.message(), "locks[2] cannot be applied: step 1 names action 7, but that node offers 3");
    let e = lock_walk_error(0, WalkStep { depth: 0, index: 60, available: 45, is_chance: true });
    assert_eq!(e.message(), "locks[0] cannot be applied: step 0 names card 60, but that node offers 45");
    let e = check_lock_target(1, false, true, 2, 3, 2, 3).unwrap_err();
    assert_eq!(
        e.message(),
        "locks[1] cannot be applied: the node it reaches is not a decision node; only a player's strategy can be pinned"
    );
    let e = check_lock_target(1, false, false, 2, 3, 3, 3).unwrap_err();
    assert_eq!(e.message(), "locks[1] cannot be applied: `strategy` is 2x3 where the node needs 3 actions x 3 hands");
    assert_eq!(check_lock_target(1, false, false, 3, 3, 3, 3), Ok(()));
}

#[test]
fn a_hands_guard_catches_an_order_mistake() {
    // 51 = As, 50 = Ah, 0 = 2c, 4 = 3c.
    let holes = [(51u8, 50u8), (0u8, 4u8)];
    assert_eq!(check_lock_hands(0, &vec!["AsAh".to_owned(), "3c2c".to_owned()], &holes), Ok(()));
    let e = check_lock_hands(3, &vec!["AsAh".to_owned(), "2c3c".to_owned()], &holes).unwrap_err();
    assert_eq!(
        e.message(),
        "locks[3] cannot be applied: `hands[1]` is `2c3c` but the acting player's hand there is `3c2c`"
    );
    let e = check_lock_hands(0, &vec!["AsAh".to_owned()], &[(9u8, 9u8)]).unwrap_err();
    assert!(e.message().ends_with("is `??`"));
}

#[test]
fn the_loop_stops_for_the_first_reason_that_holds() {
    assert_eq!(loop_step(0, 10, false, false), None);
    assert_eq!(loop_step(3, 10, true, true), Some(Stopped::Cancelled));
    assert_eq!(loop_step(3, 10, false, true), Some(Stopped::Converged));
    assert_eq!(loop_step(10, 10, true, false), Some(Stopped::IterationCap));
    assert_eq!(loop_step(10, 10, false, true), Some(Stopped::Converged));
    assert!(measures_after(20, 10, 1000));
    assert!(!measures_after(21, 10, 1000));
    assert!(measures_after(1000, 7, 1000));
}
