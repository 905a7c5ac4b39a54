//! Hand-category classification for aggregation reports.
//!
//! The category of a hole pair on a board is derived from rank and suit tallies, the way a
//! seven-card evaluator classifies a hand, and the pair and trips classes are then subtyped the
//! way a report reader thinks of them: a set is not trips, an overpair is not "one pair".
//!
//! Cards are ids `rank * 4 + suit`, deuce 0 through ace 12, clubs 0 through spades 3.
//!
//! The mathematical model lives in the spec functions of this module: [`made_hand_spec`] is the
//! decision table over rank counts, suit presence and straights, and [`draws_spec`] the draw
//! flags. The executable [`classify`] is proved to compute exactly them.
use vstd::prelude::*;

verus! {

/// The made-hand category of a hole pair on a board, strongest first.
///
/// Classes `Straight` and above are taken from the best five-card hand regardless of whether the
/// hole cards participate. Three-of-a-kind and the pair classes subtype by participation:
/// board-only trips, board-only two pair and board-only pairs all fall through to
/// [`MadeHand::HighCard`].
#[derive(Debug, Clone, Copy, PartialEq, Eq, PartialOrd, Ord, Hash)]
pub enum MadeHand {
    StraightFlush,
    Quads,
    FullHouse,
    Flush,
    Straight,
    /// Three of a kind holding a pocket pair of the trip rank.
    PocketSet,
    /// Three of a kind from a board pair plus one hole card.
    Trips,
    /// Two pair with at least one hole card in one of the two pairs.
    TwoPair,
    /// A pocket pair above the highest board rank.
    Overpair,
    /// A hole card pairing the highest board rank.
    TopPair,
    /// A hole card pairing the second-highest board rank.
    SecondPair,
    /// A hole card pairing any lower board rank.
    WeakPair,
    /// A pocket pair at or below the highest board rank (and not a set).
    Underpair,
    HighCard,
}

impl MadeHand {
    /// Every category, strongest first — the stable row order reports emit.
    pub const ALL: [MadeHand; 14] = [
        MadeHand::StraightFlush,
        MadeHand::Quads,
        MadeHand::FullHouse,
        MadeHand::Flush,
        MadeHand::Straight,
        MadeHand::PocketSet,
        MadeHand::Trips,
        MadeHand::TwoPair,
        MadeHand::Overpair,
        MadeHand::TopPair,
        MadeHand::SecondPair,
        MadeHand::WeakPair,
        MadeHand::Underpair,
        MadeHand::HighCard,
    ];

    /// Position in the strongest-first order: 0 for a straight flush, 13 for high card.
    pub open spec fn spec_strength_index(self) -> int {
        match self {
            MadeHand::StraightFlush => 0,
            MadeHand::Quads => 1,
            MadeHand::FullHouse => 2,
            MadeHand::Flush => 3,
            MadeHand::Straight => 4,
            MadeHand::PocketSet => 5,
            MadeHand::Trips => 6,
            MadeHand::TwoPair => 7,
            MadeHand::Overpair => 8,
            MadeHand::TopPair => 9,
            MadeHand::SecondPair => 10,
            MadeHand::WeakPair => 11,
            MadeHand::Underpair => 12,
            MadeHand::HighCard => 13,
        }
    }

    /// Position in the strongest-first order of [`MadeHand::ALL`].
    pub fn strength_index(self) -> (i: u8)
        ensures
            i as int == self.spec_strength_index(),
    {
        match self {
            MadeHand::StraightFlush => 0,
            MadeHand::Quads => 1,
            MadeHand::FullHouse => 2,
            MadeHand::Flush => 3,
            MadeHand::Straight => 4,
            MadeHand::PocketSet => 5,
            MadeHand::Trips => 6,
            MadeHand::TwoPair => 7,
            MadeHand::Overpair => 8,
            MadeHand::TopPair => 9,
            MadeHand::SecondPair => 10,
            MadeHand::WeakPair => 11,
            MadeHand::Underpair => 12,
            MadeHand::HighCard => 13,
        }
    }
}

/// Draws a hand holds alongside its made category.
///
/// All `false` on a five-card board, and for made hands of [`MadeHand::Flush`] or better.
#[derive(Debug, Clone, Copy, PartialEq, Eq)]
pub struct Draws {
    /// Exactly four cards of one suit among hole + board, at least one of them a hole card.
    pub flush_draw: bool,
    /// Two or more distinct ranks complete a straight using at least one hole card.
    pub open_ended: bool,
    /// Exactly one such rank.
    pub gutshot: bool,
}

impl Draws {
    /// No draws at all.
    pub open spec fn none() -> Draws {
        Draws { flush_draw: false, open_ended: false, gutshot: false }
    }
}

impl Default for Draws {
    fn default() -> (d: Draws)
        ensures
            d == Draws::none(),
    {
        Draws { flush_draw: false, open_ended: false, gutshot: false }
    }
}

// ---------------------------------------------------------------------------------------------
// The model.
// ---------------------------------------------------------------------------------------------

/// Rank of a card id: deuce 0 through ace 12.
pub open spec fn rank_of(c: u8) -> int {
    c as int / 4
}

/// Suit of a card id: clubs 0 through spades 3.
pub open spec fn suit_of(c: u8) -> int {
    c as int % 4
}

/// How many of `cards` have rank `r`.
pub open spec fn count_rank(cards: Seq<u8>, r: int) -> nat
    decreases cards.len(),
{
    if cards.len() == 0 {
        0
    } else {
        count_rank(cards.drop_last(), r) + if rank_of(cards.last()) == r {
            1nat
        } else {
            0nat
        }
    }
}

/// Whether card id `c` is among `cards`.
pub open spec fn has_card(cards: Seq<u8>, c: int) -> bool
    decreases cards.len(),
{
    if cards.len() == 0 {
        false
    } else {
        cards.last() as int == c || has_card(cards.drop_last(), c)
    }
}

/// Hole and board together.
pub open spec fn all_cards(hole: (u8, u8), board: Seq<u8>) -> Seq<u8> {
    board.push(hole.0).push(hole.1)
}

/// Per rank: does any card have it.
pub open spec fn ranks_present(cards: Seq<u8>) -> Seq<bool> {
    Seq::new(13, |r: int| count_rank(cards, r) > 0)
}

/// Per rank: do exactly `n` cards have it.
pub open spec fn ranks_with_count(cards: Seq<u8>, n: nat) -> Seq<bool> {
    Seq::new(13, |r: int| count_rank(cards, r) == n)
}

/// Per rank: do at least `n` cards have it.
pub open spec fn ranks_with_at_least(cards: Seq<u8>, n: nat) -> Seq<bool> {
    Seq::new(13, |r: int| count_rank(cards, r) >= n)
}

/// Per rank: is the card of that rank in suit `s` present.
pub open spec fn suit_ranks(cards: Seq<u8>, s: int) -> Seq<bool> {
    Seq::new(13, |r: int| has_card(cards, r * 4 + s))
}

/// The highest index below `n` whose flag is set, or `-1`.
pub open spec fn top_set(flags: Seq<bool>, n: int) -> int
    decreases n,
{
    if n <= 0 {
        -1
    } else if flags[n - 1] {
        n - 1
    } else {
        top_set(flags, n - 1)
    }
}

/// How many indices below `n` have their flag set.
pub open spec fn num_set(flags: Seq<bool>, n: int) -> nat
    decreases n,
{
    if n <= 0 {
        0
    } else {
        num_set(flags, n - 1) + if flags[n - 1] {
            1nat
        } else {
            0nat
        }
    }
}

/// The first suit `s' >= s` (below 4) whose flag is set, or `-1`.
pub open spec fn first_set(flags: Seq<bool>, s: int) -> int
    decreases 4 - s,
{
    if s >= 4 || s < 0 {
        -1
    } else if flags[s] {
        s
    } else {
        first_set(flags, s + 1)
    }
}

/// The `j`-th rank (0..5) of straight window `k` (0..10): window 0 is the wheel A-2-3-4-5,
/// window `k > 0` runs from rank `k - 1` up.
pub open spec fn window_rank(k: int, j: int) -> int {
    if k == 0 {
        if j == 0 {
            12
        } else {
            j - 1
        }
    } else {
        k - 1 + j
    }
}

/// Whether every rank of window `k` is present.
pub open spec fn window_full(present: Seq<bool>, k: int) -> bool {
    forall|j: int| 0 <= j < 5 ==> #[trigger] present[window_rank(k, j)]
}

/// Whether rank `x` is one of the five ranks of window `k`.
pub open spec fn window_contains(k: int, x: int) -> bool {
    exists|j: int| 0 <= j < 5 && #[trigger] window_rank(k, j) == x
}

/// Whether the present ranks hold five in a row (the wheel included).
pub open spec fn straight_in(present: Seq<bool>) -> bool {
    exists|k: int| 0 <= k < 10 && #[trigger] window_full(present, k)
}

/// Whether adding rank `r` completes a straight that uses `r` and one of the hole ranks.
pub open spec fn completes_straight(present: Seq<bool>, r: int, h0: int, h1: int) -> bool {
    exists|k: int|
        0 <= k < 10 && #[trigger] window_full(present.update(r, true), k) && window_contains(k, r)
            && (window_contains(k, h0) || window_contains(k, h1))
}

/// Per suit: does it hold five or more ranks.
pub open spec fn flush_suits(cards: Seq<u8>) -> Seq<bool> {
    Seq::new(4, |s: int| num_set(suit_ranks(cards, s), 13) >= 5)
}

/// The pair classing of a hand whose two pair is entirely on the board.
pub open spec fn pairless_spec(
    pocket_pair: bool,
    h0: int,
    h1: int,
    board_present: Seq<bool>,
    top_board: int,
    second_board: int,
) -> MadeHand {
    if pocket_pair && !board_present[h0] {
        if h0 > top_board {
            MadeHand::Overpair
        } else {
            MadeHand::Underpair
        }
    } else if (board_present[h0] || board_present[h1]) && !pocket_pair {
        let paired = if board_present[h0] {
            h0
        } else {
            h1
        };
        if paired == top_board {
            MadeHand::TopPair
        } else if paired == second_board {
            MadeHand::SecondPair
        } else {
            MadeHand::WeakPair
        }
    } else {
        MadeHand::HighCard
    }
}

/// The made-hand category: the classification table over the hand's rank counts, suits and
/// straights.
pub open spec fn made_hand_spec(hole: (u8, u8), board: Seq<u8>) -> MadeHand {
    let all = all_cards(hole, board);
    let h0 = rank_of(hole.0);
    let h1 = rank_of(hole.1);
    let pocket_pair = h0 == h1;
    let board_present = ranks_present(board);
    let top_board = top_set(board_present, 13);
    let second_board = top_set(board_present, top_board);
    let flush_suit = first_set(flush_suits(all), 0);
    let trip = top_set(ranks_with_count(all, 3), 13);
    let pair1 = top_set(ranks_with_count(all, 2), 13);
    let pair2 = top_set(ranks_with_count(all, 2), pair1);
    if flush_suit >= 0 {
        if straight_in(suit_ranks(all, flush_suit)) {
            MadeHand::StraightFlush
        } else {
            MadeHand::Flush
        }
    } else if num_set(ranks_with_count(all, 4), 13) > 0 {
        MadeHand::Quads
    } else if trip >= 0 && num_set(ranks_with_at_least(all, 2), 13) >= 2 {
        MadeHand::FullHouse
    } else if straight_in(ranks_present(all)) {
        MadeHand::Straight
    } else if trip >= 0 {
        if pocket_pair && h0 == trip {
            MadeHand::PocketSet
        } else if count_rank(board, trip) == 2 && (h0 == trip || h1 == trip) {
            MadeHand::Trips
        } else {
            MadeHand::HighCard
        }
    } else if pair2 >= 0 {
        if h0 == pair1 || h0 == pair2 || h1 == pair1 || h1 == pair2 {
            MadeHand::TwoPair
        } else {
            pairless_spec(pocket_pair, h0, h1, board_present, top_board, second_board)
        }
    } else if pair1 >= 0 {
        if pocket_pair && h0 == pair1 {
            if pair1 > top_board {
                MadeHand::Overpair
            } else {
                MadeHand::Underpair
            }
        } else if h0 == pair1 || h1 == pair1 {
            if pair1 == top_board {
                MadeHand::TopPair
            } else if pair1 == second_board {
                MadeHand::SecondPair
            } else {
                MadeHand::WeakPair
            }
        } else {
            MadeHand::HighCard
        }
    } else {
        MadeHand::HighCard
    }
}

/// Whether a category is weaker than a flush — the categories that still chart draws.
pub open spec fn weaker_than_flush(m: MadeHand) -> bool {
    m.spec_strength_index() > 3
}

/// Per rank: is it absent, and does adding it complete a straight through a hole card.
pub open spec fn out_ranks(hole: (u8, u8), board: Seq<u8>) -> Seq<bool> {
    let all = all_cards(hole, board);
    Seq::new(
        13,
        |r: int|
            count_rank(all, r) == 0 && completes_straight(
                ranks_present(all),
                r,
                rank_of(hole.0),
                rank_of(hole.1),
            ),
    )
}

/// The draws of a hand that is weaker than a flush on a board of fewer than five cards.
pub open spec fn computed_draws(hole: (u8, u8), board: Seq<u8>) -> Draws {
    let all = all_cards(hole, board);
    let outs = num_set(out_ranks(hole, board), 13);
    Draws {
        flush_draw: exists|s: int|
            0 <= s < 4 && #[trigger] num_set(suit_ranks(all, s), 13) == 4 && (suit_of(hole.0) == s
                || suit_of(hole.1) == s),
        open_ended: outs >= 2,
        gutshot: outs == 1,
    }
}

/// The draws a hand holds, given its made category.
pub open spec fn draws_spec(hole: (u8, u8), board: Seq<u8>, made: MadeHand) -> Draws {
    if board.len() < 5 && weaker_than_flush(made) {
        computed_draws(hole, board)
    } else {
        Draws::none()
    }
}

/// What [`classify`] accepts: a board of three, four or five cards, every card a card id.
pub open spec fn valid_hand(hole: (u8, u8), board: Seq<u8>) -> bool {
    &&& 3 <= board.len() <= 5
    &&& hole.0 < 52
    &&& hole.1 < 52
    &&& forall|i: int| 0 <= i < board.len() ==> #[trigger] board[i] < 52
}

// ---------------------------------------------------------------------------------------------
// Lemmas about the tallies.
// ---------------------------------------------------------------------------------------------

proof fn lemma_count_push(s: Seq<u8>, x: u8, r: int)
    ensures
        count_rank(s.push(x), r) == count_rank(s, r) + if rank_of(x) == r {
            1nat
        } else {
            0nat
        },
{
    assert(s.push(x).drop_last() =~= s);
}

proof fn lemma_has_push(s: Seq<u8>, x: u8, c: int)
    ensures
        has_card(s.push(x), c) == (x as int == c || has_card(s, c)),
{
    assert(s.push(x).drop_last() =~= s);
}

proof fn lemma_count_le_len(s: Seq<u8>, r: int)
    ensures
        count_rank(s, r) <= s.len(),
    decreases s.len(),
{
    if s.len() > 0 {
        lemma_count_le_len(s.drop_last(), r);
    }
}

// ---------------------------------------------------------------------------------------------
// Executable building blocks.
// ---------------------------------------------------------------------------------------------

/// Rank counts (13) and card presence (52) of a list of card ids.
fn tally(cards: &Vec<u8>) -> (res: (Vec<u8>, Vec<bool>))
    requires
        cards@.len() <= 7,
        forall|i: int| 0 <= i < cards@.len() ==> #[trigger] cards@[i] < 52,
    ensures
        res.0@.len() == 13,
        res.1@.len() == 52,
        forall|r: int| 0 <= r < 13 ==> #[trigger] res.0@[r] as int == count_rank(cards@, r),
        forall|c: int| 0 <= c < 52 ==> #[trigger] res.1@[c] == has_card(cards@, c),
{
    let mut counts: Vec<u8> = Vec::new();
    let mut k: usize = 0;
    while k < 13
        invariant
            k <= 13,
            counts@.len() == k,
            forall|r: int| 0 <= r < k ==> #[trigger] counts@[r] == 0,
        decreases 13 - k,
    {
        counts.push(0);
        k += 1;
    }
    let mut present: Vec<bool> = Vec::new();
    let mut k: usize = 0;
    while k < 52
        invariant
            k <= 52,
            present@.len() == k,
            forall|c: int| 0 <= c < k ==> !#[trigger] present@[c],
        decreases 52 - k,
    {
        present.push(false);
        k += 1;
    }
    let mut i: usize = 0;
    while i < cards.len()
        invariant
            i <= cards@.len(),
            cards@.len() <= 7,
            forall|j: int| 0 <= j < cards@.len() ==> #[trigger] cards@[j] < 52,
            counts@.len() == 13,
            present@.len() == 52,
            forall|r: int| 0 <= r < 13 ==> #[trigger] counts@[r] as int == count_rank(cards@.take(i as int), r),
            forall|c: int| 0 <= c < 52 ==> #[trigger] present@[c] == has_card(cards@.take(i as int), c),
        decreases cards@.len() - i,
    {
        let card = cards[i];
        let rank = (card / 4) as usize;
        proof {
            assert(cards@.take(i as int + 1) =~= cards@.take(i as int).push(card));
            lemma_count_le_len(cards@.take(i as int), rank as int);
            assert forall|r: int| 0 <= r < 13 implies count_rank(cards@.take(i as int + 1), r)
                == count_rank(cards@.take(i as int), r) + if rank_of(card) == r { 1nat } else { 0nat } by {
                lemma_count_push(cards@.take(i as int), card, r);
            }
            assert forall|c: int| 0 <= c < 52 implies has_card(cards@.take(i as int + 1), c)
                == (card as int == c || has_card(cards@.take(i as int), c)) by {
                lemma_has_push(cards@.take(i as int), card, c);
            }
        }
        let old_count = counts[rank];
        counts.set(rank, old_count + 1);
        present.set(card as usize, true);
        i += 1;
    }
    proof {
        assert(cards@.take(cards@.len() as int) =~= cards@);
    }
    (counts, present)
}

/// Per rank: does its count equal `n`.
fn flags_count_eq(counts: &Vec<u8>, n: u8) -> (f: Vec<bool>)
    requires
        counts@.len() == 13,
    ensures
        f@.len() == 13,
        forall|r: int| 0 <= r < 13 ==> #[trigger] f@[r] == (counts@[r] == n),
{
    let mut f: Vec<bool> = Vec::new();
    let mut r: usize = 0;
    while r < 13
        invariant
            r <= 13,
            counts@.len() == 13,
            f@.len() == r,
            forall|q: int| 0 <= q < r ==> #[trigger] f@[q] == (counts@[q] == n),
        decreases 13 - r,
    {
        f.push(counts[r] == n);
        r += 1;
    }
    f
}

/// Per rank: is its count at least `n`.
fn flags_count_at_least(counts: &Vec<u8>, n: u8) -> (f: Vec<bool>)
    requires
        counts@.len() == 13,
    ensures
        f@.len() == 13,
        forall|r: int| 0 <= r < 13 ==> #[trigger] f@[r] == (counts@[r] >= n),
{
    let mut f: Vec<bool> = Vec::new();
    let mut r: usize = 0;
    while r < 13
        invariant
            r <= 13,
            counts@.len() == 13,
            f@.len() == r,
            forall|q: int| 0 <= q < r ==> #[trigger] f@[q] == (counts@[q] >= n),
        decreases 13 - r,
    {
        f.push(counts[r] >= n);
        r += 1;
    }
    f
}

/// Per rank: is the card of that rank in suit `s` present.
fn suit_flags(present: &Vec<bool>, s: usize) -> (f: Vec<bool>)
    requires
        present@.len() == 52,
        s < 4,
    ensures
        f@.len() == 13,
        forall|r: int| 0 <= r < 13 ==> #[trigger] f@[r] == present@[r * 4 + s],
{
    let mut f: Vec<bool> = Vec::new();
    let mut r: usize = 0;
    while r < 13
        invariant
            r <= 13,
            s < 4,
            present@.len() == 52,
            f@.len() == r,
            forall|q: int| 0 <= q < r ==> #[trigger] f@[q] == present@[q * 4 + s],
        decreases 13 - r,
    {
        f.push(present[r * 4 + s]);
        r += 1;
    }
    f
}

/// The highest index below `n` whose flag is set, or `-1`.
fn top_flag(flags: &Vec<bool>, n: i32) -> (t: i32)
    requires
        n <= flags@.len(),
        n <= 13,
    ensures
        t == top_set(flags@, n as int),
        -1 <= t < 13,
        t < n || t == -1,
{
    if n <= 0 {
        return -1;
    }
    let mut i: i32 = n;
    while i > 0
        invariant
            0 <= i <= n <= flags@.len(),
            n <= 13,
            top_set(flags@, n as int) == top_set(flags@, i as int),
        decreases i,
    {
        if flags[(i - 1) as usize] {
            return i - 1;
        }
        i -= 1;
    }
    -1
}

/// How many indices below `n` have their flag set.
fn count_flags(flags: &Vec<bool>, n: usize) -> (c: u8)
    requires
        n <= flags@.len(),
        n <= 13,
    ensures
        c as int == num_set(flags@, n as int),
{
    let mut c: u8 = 0;
    let mut i: usize = 0;
    while i < n
        invariant
            i <= n <= flags@.len(),
            n <= 13,
            c as int == num_set(flags@, i as int),
            c <= i,
        decreases n - i,
    {
        if flags[i] {
            c += 1;
        }
        i += 1;
    }
    c
}

/// The `j`-th rank of straight window `k`.
fn window_rank_at(k: usize, j: usize) -> (r: usize)
    requires
        k < 10,
        j < 5,
    ensures
        r as int == window_rank(k as int, j as int),
        r < 13,
{
    if k == 0 {
        if j == 0 {
            12
        } else {
            j - 1
        }
    } else {
        k - 1 + j
    }
}

/// Whether every rank of window `k` is present, once rank `extra` (if below 13) is added.
fn window_full_with(present: &Vec<bool>, extra: usize, k: usize) -> (b: bool)
    requires
        present@.len() == 13,
        k < 10,
    ensures
        extra < 13 ==> b == window_full(present@.update(extra as int, true), k as int),
        extra >= 13 ==> b == window_full(present@, k as int),
{
    let ghost with = if extra < 13 {
        present@.update(extra as int, true)
    } else {
        present@
    };
    let mut j: usize = 0;
    while j < 5
        invariant
            j <= 5,
            k < 10,
            present@.len() == 13,
            with == (if extra < 13 { present@.update(extra as int, true) } else { present@ }),
            forall|q: int| 0 <= q < j ==> #[trigger] with[window_rank(k as int, q)],
        decreases 5 - j,
    {
        let w = window_rank_at(k, j);
        if !(present[w] || w == extra) {
            proof {
                assert(!with[window_rank(k as int, j as int)]);
            }
            return false;
        }
        j += 1;
    }
    true
}

/// Whether the present ranks (13 flags) hold a straight, the wheel included.
fn has_straight(present: &Vec<bool>) -> (b: bool)
    requires
        present@.len() == 13,
    ensures
        b == straight_in(present@),
{
    let mut k: usize = 0;
    while k < 10
        invariant
            k <= 10,
            present@.len() == 13,
            forall|q: int| 0 <= q < k ==> !#[trigger] window_full(present@, q),
        decreases 10 - k,
    {
        if window_full_with(present, 13, k) {
            return true;
        }
        k += 1;
    }
    false
}

/// Whether rank `x` is one of the ranks of window `k`.
fn window_has(k: usize, x: usize) -> (b: bool)
    requires
        k < 10,
    ensures
        b == window_contains(k as int, x as int),
{
    let mut j: usize = 0;
    while j < 5
        invariant
            j <= 5,
            k < 10,
            forall|q: int| 0 <= q < j ==> #[trigger] window_rank(k as int, q) != x,
        decreases 5 - j,
    {
        if window_rank_at(k, j) == x {
            return true;
        }
        j += 1;
    }
    false
}

/// Whether adding the absent rank `r` completes a straight through `r` and a hole rank.
fn completes(present: &Vec<bool>, r: usize, h0: usize, h1: usize) -> (b: bool)
    requires
        present@.len() == 13,
        r < 13,
    ensures
        b == completes_straight(present@, r as int, h0 as int, h1 as int),
{
    let mut k: usize = 0;
    while k < 10
        invariant
            k <= 10,
            r < 13,
            present@.len() == 13,
            forall|q: int|
                0 <= q < k ==> !(#[trigger] window_full(present@.update(r as int, true), q)
                    && window_contains(q, r as int) && (window_contains(q, h0 as int)
                    || window_contains(q, h1 as int))),
        decreases 10 - k,
    {
        if window_full_with(present, r, k) && window_has(k, r) && (window_has(k, h0) || window_has(
            k,
            h1,
        )) {
            return true;
        }
        k += 1;
    }
    false
}

/// The pair classing for a hand whose best-five two pair is entirely on the board: the hole may
/// still hold a lower pocket pair or pair a board rank the best hand does not use.
fn classify_pairless(
    pocket_pair: bool,
    hole_ranks: (usize, usize),
    board_present: &Vec<bool>,
    top_board: i32,
    second_board: i32,
) -> (m: MadeHand)
    requires
        board_present@.len() == 13,
        hole_ranks.0 < 13,
        hole_ranks.1 < 13,
    ensures
        m == pairless_spec(
            pocket_pair,
            hole_ranks.0 as int,
            hole_ranks.1 as int,
            board_present@,
            top_board as int,
            second_board as int,
        ),
{
    let (h0, h1) = hole_ranks;
    if pocket_pair && !board_present[h0] {
        if h0 as i32 > top_board {
            MadeHand::Overpair
        } else {
            MadeHand::Underpair
        }
    } else if (board_present[h0] || board_present[h1]) && !pocket_pair {
        let paired = if board_present[h0] {
            h0
        } else {
            h1
        };
        if paired as i32 == top_board {
            MadeHand::TopPair
        } else if paired as i32 == second_board {
            MadeHand::SecondPair
        } else {
            MadeHand::WeakPair
        }
    } else {
        MadeHand::HighCard
    }
}

/// How many board cards hold rank `r`.
fn rank_count_on(board: &[u8], r: usize) -> (n: u8)
    requires
        board@.len() <= 5,
    ensures
        n as int == count_rank(board@, r as int),
{
    let mut n: u8 = 0;
    let mut i: usize = 0;
    while i < board.len()
        invariant
            i <= board@.len() <= 5,
            n as int == count_rank(board@.take(i as int), r as int),
            n <= i,
        decreases board@.len() - i,
    {
        proof {
            assert(board@.take(i as int + 1) =~= board@.take(i as int).push(board@[i as int]));
            lemma_count_push(board@.take(i as int), board@[i as int], r as int);
        }
        if (board[i] / 4) as usize == r {
            n += 1;
        }
        i += 1;
    }
    proof {
        assert(board@.take(board@.len() as int) =~= board@);
    }
    n
}

/// The first of the four suit flags that is set, or `-1`.
fn first_flag(flags: &Vec<bool>) -> (t: i32)
    requires
        flags@.len() == 4,
    ensures
        t == first_set(flags@, 0),
        -1 <= t < 4,
{
    let mut s: i32 = 0;
    while s < 4
        invariant
            0 <= s <= 4,
            flags@.len() == 4,
            first_set(flags@, 0) == first_set(flags@, s as int),
        decreases 4 - s,
    {
        if flags[s as usize] {
            return s;
        }
        s += 1;
    }
    -1
}

/// Whether some suit holds exactly four ranks and one of the hole cards.
fn has_flush_draw(present: &Vec<bool>, hole: (u8, u8), Ghost(all): Ghost<Seq<u8>>) -> (b: bool)
    requires
        present@.len() == 52,
        forall|c: int| 0 <= c < 52 ==> #[trigger] present@[c] == has_card(all, c),
    ensures
        b == exists|s: int|
            0 <= s < 4 && #[trigger] num_set(suit_ranks(all, s), 13) == 4 && (suit_of(hole.0) == s
                || suit_of(hole.1) == s),
{
    let mut s: usize = 0;
    while s < 4
        invariant
            s <= 4,
            present@.len() == 52,
            forall|c: int| 0 <= c < 52 ==> #[trigger] present@[c] == has_card(all, c),
            forall|q: int|
                0 <= q < s ==> !(#[trigger] num_set(suit_ranks(all, q), 13) == 4 && (suit_of(hole.0)
                    == q || suit_of(hole.1) == q)),
        decreases 4 - s,
    {
        let flags = suit_flags(present, s);
        proof {
            assert(flags@ =~= suit_ranks(all, s as int));
        }
        let n = count_flags(&flags, 13);
        if n == 4 && ((hole.0 % 4) as usize == s || (hole.1 % 4) as usize == s) {
            return true;
        }
        s += 1;
    }
    false
}

/// The draw flags of a hand weaker than a flush on a flop or turn.
fn compute_draws(
    counts: &Vec<u8>,
    rank_present: &Vec<bool>,
    present: &Vec<bool>,
    hole: (u8, u8),
    Ghost(board): Ghost<Seq<u8>>,
) -> (d: Draws)
    requires
        hole.0 < 52,
        hole.1 < 52,
        counts@.len() == 13,
        present@.len() == 52,
        rank_present@ == ranks_present(all_cards(hole, board)),
        forall|r: int|
            0 <= r < 13 ==> #[trigger] counts@[r] as int == count_rank(all_cards(hole, board), r),
        forall|c: int| 0 <= c < 52 ==> #[trigger] present@[c] == has_card(all_cards(hole, board), c),
    ensures
        d == computed_draws(hole, board),
{
    let ghost all = all_cards(hole, board);
    let flush_draw = has_flush_draw(present, hole, Ghost(all));
    let h0 = (hole.0 / 4) as usize;
    let h1 = (hole.1 / 4) as usize;
    let ghost outs_flags = out_ranks(hole, board);
    let mut outs: u8 = 0;
    let mut r: usize = 0;
    while r < 13
        invariant
            r <= 13,
            h0 as int == rank_of(hole.0),
            h1 as int == rank_of(hole.1),
            counts@.len() == 13,
            rank_present@ == ranks_present(all),
            all == all_cards(hole, board),
            outs_flags == out_ranks(hole, board),
            forall|q: int| 0 <= q < 13 ==> #[trigger] counts@[q] as int == count_rank(all, q),
            outs as int == num_set(outs_flags, r as int),
            outs <= r,
        decreases 13 - r,
    {
        if counts[r] == 0 && completes(rank_present, r, h0, h1) {
            outs += 1;
        }
        r += 1;
    }
    Draws { flush_draw, open_ended: outs >= 2, gutshot: outs == 1 }
}

/// Classify one hole pair against a board of three, four or five cards.
///
/// `hole` and `board` are card ids (0–51). Returns the made category and the draws.
pub fn classify(hole: (u8, u8), board: &[u8]) -> (res: (MadeHand, Draws))
    requires
        valid_hand(hole, board@),
    ensures
        res.0 == made_hand_spec(hole, board@),
        res.1 == draws_spec(hole, board@, res.0),
        // Nothing is charted on a river, nor for a flush or better.
        board@.len() == 5 || !weaker_than_flush(res.0) ==> res.1 == Draws::none(),
        // Open-ended and gutshot never hold together.
        !(res.1.open_ended && res.1.gutshot),
{
    let ghost all = all_cards(hole, board@);
    let mut board_cards: Vec<u8> = Vec::new();
    let mut i: usize = 0;
    while i < board.len()
        invariant
            i <= board@.len(),
            board_cards@ == board@.take(i as int),
        decreases board@.len() - i,
    {
        board_cards.push(board[i]);
        proof {
            assert(board@.take(i as int + 1) =~= board@.take(i as int).push(board@[i as int]));
        }
        i += 1;
    }
    proof {
        assert(board@.take(board@.len() as int) =~= board@);
    }
    let mut all_vec = board_cards.clone();
    proof {
        assert(all_vec@ =~= board_cards@);
    }
    all_vec.push(hole.0);
    all_vec.push(hole.1);
    proof {
        assert(all_vec@ =~= all);
    }
    let (counts, present) = tally(&all_vec);
    let (board_counts, _board_present_cards) = tally(&board_cards);

    let h0 = (hole.0 / 4) as usize;
    let h1 = (hole.1 / 4) as usize;
    let pocket_pair = h0 == h1;

    let board_present = flags_count_at_least(&board_counts, 1);
    proof {
        assert(board_present@ =~= ranks_present(board@));
    }
    let top_board = top_flag(&board_present, 13);
    let second_board = top_flag(&board_present, top_board);

    let mut flush_flags: Vec<bool> = Vec::new();
    let mut s: usize = 0;
    while s < 4
        invariant
            s <= 4,
            present@.len() == 52,
            forall|c: int| 0 <= c < 52 ==> #[trigger] present@[c] == has_card(all, c),
            flush_flags@.len() == s,
            forall|q: int| 0 <= q < s ==> #[trigger] flush_flags@[q] == (num_set(suit_ranks(all, q), 13) >= 5),
        decreases 4 - s,
    {
        let flags = suit_flags(&present, s);
        proof {
            assert(flags@ =~= suit_ranks(all, s as int));
        }
        let n = count_flags(&flags, 13);
        flush_flags.push(n >= 5);
        s += 1;
    }
    proof {
        assert(flush_flags@ =~= flush_suits(all));
    }
    let flush_suit = first_flag(&flush_flags);

    let quads_flags = flags_count_eq(&counts, 4);
    let trip_flags = flags_count_eq(&counts, 3);
    let pair_flags = flags_count_eq(&counts, 2);
    let paired_flags = flags_count_at_least(&counts, 2);
    let rank_present = flags_count_at_least(&counts, 1);
    proof {
        assert(quads_flags@ =~= ranks_with_count(all, 4));
        assert(trip_flags@ =~= ranks_with_count(all, 3));
        assert(pair_flags@ =~= ranks_with_count(all, 2));
        assert(paired_flags@ =~= ranks_with_at_least(all, 2));
        assert(rank_present@ =~= ranks_present(all));
    }
    let trip = top_flag(&trip_flags, 13);
    let pair1 = top_flag(&pair_flags, 13);
    let pair2 = top_flag(&pair_flags, pair1);

    let made = if flush_suit >= 0 {
        let suited = suit_flags(&present, flush_suit as usize);
        proof {
            assert(suited@ =~= suit_ranks(all, flush_suit as int));
        }
        if has_straight(&suited) {
            MadeHand::StraightFlush
        } else {
            MadeHand::Flush
        }
    } else if count_flags(&quads_flags, 13) > 0 {
        MadeHand::Quads
    } else if trip >= 0 && count_flags(&paired_flags, 13) >= 2 {
        MadeHand::FullHouse
    } else if has_straight(&rank_present) {
        MadeHand::Straight
    } else if trip >= 0 {
        let t = trip as usize;
        if pocket_pair && h0 == t {
            MadeHand::PocketSet
        } else if rank_count_on(board, t) == 2 && (h0 == t || h1 == t) {
            MadeHand::Trips
        } else {
            MadeHand::HighCard
        }
    } else if pair2 >= 0 {
        let (p1, p2) = (pair1 as usize, pair2 as usize);
        if h0 == p1 || h0 == p2 || h1 == p1 || h1 == p2 {
            MadeHand::TwoPair
        } else {
            classify_pairless(pocket_pair, (h0, h1), &board_present, top_board, second_board)
        }
    } else if pair1 >= 0 {
        let p = pair1 as usize;
        if pocket_pair && h0 == p {
            if pair1 > top_board {
                MadeHand::Overpair
            } else {
                MadeHand::Underpair
            }
        } else if h0 == p || h1 == p {
            if pair1 == top_board {
                MadeHand::TopPair
            } else if pair1 == second_board {
                MadeHand::SecondPair
            } else {
                MadeHand::WeakPair
            }
        } else {
            MadeHand::HighCard
        }
    } else {
        MadeHand::HighCard
    };

    let draws = if board.len() < 5 && made.strength_index() > 3 {
        compute_draws(&counts, &rank_present, &present, hole, Ghost(board@))
    } else {
        Draws { flush_draw: false, open_ended: false, gutshot: false }
    };
    (made, draws)
}

// ---------------------------------------------------------------------------------------------
// Laws.
// ---------------------------------------------------------------------------------------------

proof fn lemma_top_set_is_set(flags: Seq<bool>, n: int)
    requires
        n <= flags.len(),
    ensures
        top_set(flags, n) >= 0 ==> flags[top_set(flags, n)] && top_set(flags, n) < n,
        top_set(flags, n) >= -1,
    decreases n,
{
    if n > 0 && !flags[n - 1] {
        lemma_top_set_is_set(flags, n - 1);
    }
}

/// Board-only pairs, two pair and trips are not the hand's: when the hole cards pair neither
/// each other nor any board rank, the category is never a set, trips, two pair or any pair
/// class — it is high card unless the board and kickers make a straight, flush or better.
pub proof fn lemma_unpaired_hole_holds_no_pair_class(hole: (u8, u8), board: Seq<u8>)
    requires
        valid_hand(hole, board),
        rank_of(hole.0) != rank_of(hole.1),
        count_rank(board, rank_of(hole.0)) == 0,
        count_rank(board, rank_of(hole.1)) == 0,
    ensures
        match made_hand_spec(hole, board) {
            MadeHand::PocketSet | MadeHand::Trips | MadeHand::TwoPair | MadeHand::Overpair
            | MadeHand::TopPair | MadeHand::SecondPair | MadeHand::WeakPair
            | MadeHand::Underpair => false,
            _ => true,
        },
{
    let all = all_cards(hole, board);
    let h0 = rank_of(hole.0);
    let h1 = rank_of(hole.1);
    lemma_count_push(board, hole.0, h0);
    lemma_count_push(board.push(hole.0), hole.1, h0);
    lemma_count_push(board, hole.0, h1);
    lemma_count_push(board.push(hole.0), hole.1, h1);
    assert(count_rank(all, h0) == 1);
    assert(count_rank(all, h1) == 1);
    let board_present = ranks_present(board);
    assert(!board_present[h0] && !board_present[h1]);
    let trip = top_set(ranks_with_count(all, 3), 13);
    let pair1 = top_set(ranks_with_count(all, 2), 13);
    let pair2 = top_set(ranks_with_count(all, 2), pair1);
    lemma_top_set_is_set(ranks_with_count(all, 3), 13);
    lemma_top_set_is_set(ranks_with_count(all, 2), 13);
    if pair1 >= 0 {
        lemma_top_set_is_set(ranks_with_count(all, 2), pair1);
    }
    assert(trip != h0 && trip != h1);
    assert(pair1 != h0 && pair1 != h1);
    assert(pair2 != h0 && pair2 != h1);
}

/// The first flagged suit is found whenever some suit is flagged.
proof fn lemma_first_set_finds(flags: Seq<bool>, s: int, t: int)
    requires
        0 <= s <= t < 4,
        flags.len() == 4,
        flags[t],
    ensures
        0 <= first_set(flags, s) <= t,
    decreases 4 - s,
{
    if !flags[s] {
        lemma_first_set_finds(flags, s + 1, t);
    }
}

/// A flush always outranks a straight: when the seven cards hold five or more of one suit, the
/// category is a flush or a straight flush — never a straight, quads, a full house or anything
/// lower — and a hand reported as a flush or a straight flush does hold five of one suit.
pub proof fn law_a_flush_outranks_a_straight(hole: (u8, u8), board: Seq<u8>)
    requires
        valid_hand(hole, board),
    ensures
        (exists|s: int| 0 <= s < 4 && num_set(#[trigger] suit_ranks(all_cards(hole, board), s), 13) >= 5)
            ==> (made_hand_spec(hole, board) is Flush || made_hand_spec(hole, board) is StraightFlush),
        (made_hand_spec(hole, board) is Flush || made_hand_spec(hole, board) is StraightFlush)
            ==> exists|s: int| 0 <= s < 4 && num_set(#[trigger] suit_ranks(all_cards(hole, board), s), 13) >= 5,
{
    let all = all_cards(hole, board);
    let flags = flush_suits(all);
    if exists|s: int| 0 <= s < 4 && num_set(#[trigger] suit_ranks(all, s), 13) >= 5 {
        let t = choose|s: int| 0 <= s < 4 && num_set(#[trigger] suit_ranks(all, s), 13) >= 5;
        assert(flags[t]);
        lemma_first_set_finds(flags, 0, t);
    }
    if made_hand_spec(hole, board) is Flush || made_hand_spec(hole, board) is StraightFlush {
        let f = first_set(flags, 0);
        lemma_first_set_in_range(flags, 0);
        if f >= 0 {
            assert(flags[f]);
            assert(num_set(suit_ranks(all, f), 13) >= 5);
        }
    }
}

/// What the first flagged suit is: none, or a flagged suit.
proof fn lemma_first_set_in_range(flags: Seq<bool>, s: int)
    requires
        0 <= s,
    ensures
        first_set(flags, s) == -1 || (s <= first_set(flags, s) < 4 && flags[first_set(flags, s)]),
    decreases 4 - s,
{
    if s < 4 && !flags[s] {
        lemma_first_set_in_range(flags, s + 1);
    }
}

} // verus!
