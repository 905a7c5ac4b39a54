//! The decisions around driving the engine: memory budgets, the bunching peak gate, the
//! convergence curve's decimation, and the validated replay of a history.
use vstd::prelude::*;

use crate::cards::Card;
use crate::convert::{hole_text, hole_to_string};
use crate::spot::{spot_error_text, SpotError};
use crate::text::{append_decimal, decimal};

verus! {

/// Refuse a tree bigger than this unless the caller raises it: four gibibytes.
pub const DEFAULT_MEMORY_LIMIT: u64 = 4294967296;

/// zstd level used when a caller does not ask for one.
pub const DEFAULT_COMPRESSION_LEVEL: i32 = 3;

/// Peak live bytes of a bunching preparation, indexed by fold-player count minus one.
///
/// The results (4·(C(49,4) + C(49,5) + C(49,6)) = 64 410 304 bytes), the `f64` sum tables live
/// alongside them (9 808, 1 852 208 and 128 977 808 bytes for one, two and three fold players),
/// or for four fold players the phase-2 temporary table (3 607 824 528 bytes) plus the sums;
/// each with an 8 MiB allowance (8 388 608 bytes).
pub const PEAK_BUNCHING_BYTES: [u64; 4] = [72808720, 74651120, 201776720, 3745190944];

/// How many samples a convergence curve keeps before it starts thinning.
pub const MAX_SAMPLES: usize = 512;

/// Why a solve could not be built or run.
#[derive(Debug, Clone, PartialEq, Eq)]
pub enum EngineError {
    Spot(SpotError),
    Tree(String),
    Build(String),
    TooBig { needed: u64, limit: u64, compressed: &'static str },
    Save { path: String, reason: String },
    Load { path: String, reason: String },
    Lock { index: usize, reason: String },
    BunchingTooBig { fold_players: usize, peak: u64, limit: u64 },
}

/// The human-readable message of an engine error.
pub open spec fn engine_error_text(e: EngineError) -> Seq<char> {
    match e {
        EngineError::Spot(s) => spot_error_text(s),
        EngineError::Tree(r) => "the action tree is invalid: "@ + r@,
        EngineError::Build(r) => "the game could not be built: "@ + r@,
        EngineError::TooBig { needed, limit, compressed } => "this tree needs "@ + decimal(
            needed as nat,
        ) + " bytes"@ + compressed@ + " and the limit is "@ + decimal(limit as nat)
            + "; raise `maxMemoryBytes`, shrink the ranges, or drop a bet size"@,
        EngineError::Save { path, reason } => "could not write the solution to `"@ + path@
            + "`: "@ + reason@,
        EngineError::Load { path, reason } => "could not read a solution from `"@ + path@
            + "`: "@ + reason@,
        EngineError::Lock { index, reason } => "locks["@ + decimal(index as nat)
            + "] cannot be applied: "@ + reason@,
        EngineError::BunchingTooBig { fold_players, peak, limit } =>
            "preparing bunching data for "@ + decimal(fold_players as nat)
            + " fold players peaks at "@ + decimal(peak as nat) + " bytes and the limit is "@
            + decimal(limit as nat) + "; raise `maxMemoryBytes` or drop a fold range"@,
    }
}

impl EngineError {
    /// The message a host shows for this error.
    pub fn message(&self) -> (s: String)
        ensures
            s@ == engine_error_text(*self),
    {
        match self {
            EngineError::Spot(e) => e.message(),
            EngineError::Tree(r) => {
                let mut s = String::from_str("the action tree is invalid: ");
                s.append(r.as_str());
                s
            },
            EngineError::Build(r) => {
                let mut s = String::from_str("the game could not be built: ");
                s.append(r.as_str());
                s
            },
            EngineError::TooBig { needed, limit, compressed } => {
                let mut s = String::from_str("this tree needs ");
                append_decimal(&mut s, *needed);
                s.append(" bytes");
                s.append(compressed);
                s.append(" and the limit is ");
                append_decimal(&mut s, *limit);
                s.append("; raise `maxMemoryBytes`, shrink the ranges, or drop a bet size");
                s
            },
            EngineError::Save { path, reason } => {
                let mut s = String::from_str("could not write the solution to `");
                s.append(path.as_str());
                s.append("`: ");
                s.append(reason.as_str());
                s
            },
            EngineError::Load { path, reason } => {
                let mut s = String::from_str("could not read a solution from `");
                s.append(path.as_str());
                s.append("`: ");
                s.append(reason.as_str());
                s
            },
            EngineError::Lock { index, reason } => {
                let mut s = String::from_str("locks[");
                append_decimal(&mut s, *index as u64);
                s.append("] cannot be applied: ");
                s.append(reason.as_str());
                s
            },
            EngineError::BunchingTooBig { fold_players, peak, limit } => {
                let mut s = String::from_str("preparing bunching data for ");
                append_decimal(&mut s, *fold_players as u64);
                s.append(" fold players peaks at ");
                append_decimal(&mut s, *peak);
                s.append(" bytes and the limit is ");
                append_decimal(&mut s, *limit);
                s.append("; raise `maxMemoryBytes` or drop a fold range");
                s
            },
        }
    }
}

/// The street a tree starts on, which the board's length decides.
#[derive(Debug, Clone, Copy, PartialEq, Eq)]
pub enum BoardState {
    Flop,
    Turn,
    River,
}

/// Three cards start on the flop, four on the turn, anything else on the river.
pub fn initial_state(board_len: usize) -> (s: BoardState)
    ensures
        board_len == 3 ==> s == BoardState::Flop,
        board_len == 4 ==> s == BoardState::Turn,
        board_len != 3 && board_len != 4 ==> s == BoardState::River,
{
    match board_len {
        3 => BoardState::Flop,
        4 => BoardState::Turn,
        _ => BoardState::River,
    }
}

/// How much memory a tree would take, both ways.
#[derive(Debug, Clone, Copy, PartialEq, Eq)]
pub struct MemoryEstimate {
    /// 32-bit floats.
    pub uncompressed: u64,
    /// 16-bit integers with a shared scale.
    pub compressed: u64,
    /// What the built game allocates, bunching arena included.
    pub allocated: u64,
    /// Arena bytes the bunching effect adds; present exactly when the spot asks for bunching.
    pub bunching_extra: Option<u64>,
}

/// The bytes a tree needs: the chosen storage plus any bunching arena.
pub open spec fn needed_bytes(
    uncompressed: u64,
    compressed: u64,
    compress: bool,
    bunching_extra: Option<u64>,
) -> int {
    (if compress {
        compressed
    } else {
        uncompressed
    }) + match bunching_extra {
        Some(x) => x as int,
        None => 0,
    }
}

/// The memory cap a spot gets: its own, or four gibibytes.
pub open spec fn memory_limit(max_memory_bytes: Option<u64>) -> u64 {
    match max_memory_bytes {
        Some(l) => l,
        None => DEFAULT_MEMORY_LIMIT,
    }
}

/// Check a built tree's memory against the spot's cap.
///
/// # Errors
///
/// [`EngineError::TooBig`] with the bytes needed, the limit, and whether they are compressed
/// bytes, when the tree needs more than the cap allows.
pub fn memory_budget(
    uncompressed: u64,
    compressed: u64,
    compress: bool,
    bunching_extra: Option<u64>,
    max_memory_bytes: Option<u64>,
) -> (r: Result<MemoryEstimate, EngineError>)
    requires
        needed_bytes(uncompressed, compressed, compress, bunching_extra) <= u64::MAX,
    ensures
        r is Ok <==> needed_bytes(uncompressed, compressed, compress, bunching_extra)
            <= memory_limit(max_memory_bytes),
        r matches Ok(m) ==> m == (MemoryEstimate {
            uncompressed,
            compressed,
            allocated: needed_bytes(uncompressed, compressed, compress, bunching_extra) as u64,
            bunching_extra,
        }),
        r matches Err(e) ==> (e matches EngineError::TooBig { needed, limit, compressed: label }
            && needed == needed_bytes(uncompressed, compressed, compress, bunching_extra) && limit
            == memory_limit(max_memory_bytes) && label@ == (if compress {
            " compressed"@
        } else {
            ""@
        })),
{
    let base = if compress {
        compressed
    } else {
        uncompressed
    };
    let extra = match bunching_extra {
        Some(x) => x,
        None => 0,
    };
    let needed = base + extra;
    let limit = match max_memory_bytes {
        Some(l) => l,
        None => DEFAULT_MEMORY_LIMIT,
    };
    if needed > limit {
        return Err(
            EngineError::TooBig {
                needed,
                limit,
                compressed: if compress {
                    " compressed"
                } else {
                    ""
                },
            },
        );
    }
    Ok(MemoryEstimate { uncompressed, compressed, allocated: needed, bunching_extra })
}

/// Refuse a bunching preparation whose peak memory exceeds its cap, before anything allocates.
///
/// # Errors
///
/// [`EngineError::BunchingTooBig`] with the fold-player count, the peak and the limit.
pub fn check_bunching_peak(fold_players: usize, max_memory_bytes: Option<u64>) -> (r: Result<
    (),
    EngineError,
>)
    requires
        1 <= fold_players <= 4,
    ensures
        r is Ok <==> PEAK_BUNCHING_BYTES@[fold_players - 1] <= memory_limit(max_memory_bytes),
        r matches Err(e) ==> e == (EngineError::BunchingTooBig {
            fold_players,
            peak: PEAK_BUNCHING_BYTES@[fold_players - 1],
            limit: memory_limit(max_memory_bytes),
        }),
{
    let peak = PEAK_BUNCHING_BYTES[fold_players - 1];
    let limit = match max_memory_bytes {
        Some(l) => l,
        None => DEFAULT_MEMORY_LIMIT,
    };
    if peak > limit {
        return Err(EngineError::BunchingTooBig { fold_players, peak, limit });
    }
    Ok(())
}

/// Why the loop stopped.
#[derive(Debug, Clone, Copy, PartialEq, Eq)]
pub enum Stopped {
    /// Exploitability reached the target.
    Converged,
    /// The iteration cap was hit first.
    IterationCap,
    /// Someone pressed cancel.
    Cancelled,
}

/// What the solve loop does before iteration `t` (counting from zero): stop at the iteration
/// cap — converged if the last measurement reached the target — stop when cancelled, stop when
/// the target is reached, or iterate. Cancellation is checked once per iteration, before the
/// target.
pub open spec fn loop_decision(t: u32, max_iterations: u32, cancelled: bool, reached_target: bool) -> Option<Stopped> {
    if t >= max_iterations {
        Some(if reached_target { Stopped::Converged } else { Stopped::IterationCap })
    } else if cancelled {
        Some(Stopped::Cancelled)
    } else if reached_target {
        Some(Stopped::Converged)
    } else {
        None
    }
}

/// Whether the solve loop stops before iteration `t`, and why; `None` means iterate.
pub fn loop_step(t: u32, max_iterations: u32, cancelled: bool, reached_target: bool) -> (r: Option<Stopped>)
    ensures
        r == loop_decision(t, max_iterations, cancelled, reached_target),
{
    if t >= max_iterations {
        return Some(if reached_target { Stopped::Converged } else { Stopped::IterationCap });
    }
    if cancelled {
        return Some(Stopped::Cancelled);
    }
    if reached_target {
        return Some(Stopped::Converged);
    }
    None
}

/// Whether exploitability is measured after `iterations` iterations: every `check_interval`
/// iterations, and always after the last one.
pub fn measures_after(iterations: u32, check_interval: u32, max_iterations: u32) -> (r: bool)
    requires
        check_interval > 0,
    ensures
        r == (iterations % check_interval == 0 || iterations == max_iterations),
{
    iterations % check_interval == 0 || iterations == max_iterations
}

/// Every other element, starting with the first.
pub open spec fn evens<T>(s: Seq<T>) -> Seq<T> {
    Seq::new(((s.len() + 1) / 2) as nat, |i: int| s[2 * i])
}

/// What a curve holds after one more sample: halved first when it is full.
pub open spec fn pushed_sample<T>(history: Seq<T>, sample: T) -> Seq<T> {
    (if history.len() >= MAX_SAMPLES {
        evens(history)
    } else {
        history
    }).push(sample)
}

/// Append a sample, halving the resolution of the whole series whenever it gets too long: the
/// first sample and every second one after it stay, in order, and the new one goes last.
pub fn push_sample<T: Copy>(history: &mut Vec<T>, sample: T)
    ensures
        final(history)@ == pushed_sample(old(history)@, sample),
        old(history)@.len() <= MAX_SAMPLES ==> final(history)@.len() <= MAX_SAMPLES,
{
    if history.len() >= MAX_SAMPLES {
        let n = history.len();
        let mut kept: Vec<T> = Vec::new();
        let mut k: usize = 0;
        while k < n - k
            invariant
                n == history@.len(),
                n >= 1,
                k <= n,
                n <= usize::MAX,
                2 * k <= n + 1,
                kept@ == Seq::new(k as nat, |t: int| history@[2 * t]),
            decreases n - k,
        {
            kept.push(history[2 * k]);
            proof {
                assert(kept@ =~= Seq::new((k + 1) as nat, |t: int| history@[2 * t]));
            }
            k += 1;
        }
        proof {
            assert(kept@ =~= evens(history@));
        }
        *history = kept;
    }
    history.push(sample);
}

/// The decimated curve keeps its ends and bounds its middle: however many samples are pushed,
/// it never holds more than [`MAX_SAMPLES`], the newest sample is always last, the first sample
/// ever pushed stays first, and a curve whose keys rise keeps rising when a sample with a larger
/// key is pushed.
pub proof fn law_decimation_keeps_the_ends<T>(history: Seq<T>, sample: T, key: spec_fn(T) -> int)
    requires
        history.len() <= MAX_SAMPLES,
    ensures
        pushed_sample(history, sample).len() <= MAX_SAMPLES,
        pushed_sample(history, sample).last() == sample,
        history.len() > 0 ==> pushed_sample(history, sample)[0] == history[0],
        (forall|i: int, j: int| 0 <= i < j < history.len() ==> key(history[i]) < key(history[j]))
            && (history.len() > 0 ==> key(history.last()) < key(sample)) ==> forall|i: int, j: int|
            0 <= i < j < pushed_sample(history, sample).len() ==> key(
                pushed_sample(history, sample)[i],
            ) < key(pushed_sample(history, sample)[j]),
{
    let kept = if history.len() >= MAX_SAMPLES {
        evens(history)
    } else {
        history
    };
    assert(pushed_sample(history, sample) == kept.push(sample));
    if (forall|i: int, j: int| 0 <= i < j < history.len() ==> key(history[i]) < key(history[j]))
        && (history.len() > 0 ==> key(history.last()) < key(sample)) {
        assert forall|i: int, j: int| 0 <= i < j < kept.push(sample).len() implies key(
            kept.push(sample)[i],
        ) < key(kept.push(sample)[j]) by {
            if history.len() >= MAX_SAMPLES {
                assert(kept[i] == history[2 * i]);
                if j < kept.len() {
                    assert(kept[j] == history[2 * j]);
                } else {
                    assert(key(history[2 * i]) <= key(history.last()));
                }
            } else if j == kept.len() {
                assert(key(history[i]) <= key(history.last()));
            }
        }
    }
}

/// One failed step of a history replay: `history[depth]` asked for `index` where the node offers
/// `available` (for a chance node, "offers" means dealable cards).
#[derive(Debug, Clone, Copy, PartialEq, Eq)]
pub struct WalkStep {
    pub depth: usize,
    pub index: usize,
    pub available: usize,
    pub is_chance: bool,
}

/// Whether card `i` is set in a 52-card mask.
pub open spec fn card_bit(mask: u64, i: int) -> bool {
    (mask >> (i as u64)) & 1 == 1
}

/// How many of the first `n` bits of a mask are set.
pub open spec fn bits_set(mask: u64, n: int) -> nat
    decreases n,
{
    if n <= 0 {
        0
    } else {
        bits_set(mask, n - 1) + if card_bit(mask, n - 1) {
            1nat
        } else {
            0nat
        }
    }
}

/// How many bits of a mask are set.
pub fn count_bits(mask: u64) -> (n: usize)
    ensures
        n as int == bits_set(mask, 64),
{
    let mut n: usize = 0;
    let mut i: u64 = 0;
    while i < 64
        invariant
            i <= 64,
            n as int == bits_set(mask, i as int),
            n <= i,
        decreases 64 - i,
    {
        if (mask >> i) & 1 == 1 {
            n += 1;
        }
        i += 1;
    }
    n
}

/// What one step of a replay from the root finds: at a terminal node nothing can be played; at a
/// chance node the index is a card id that must be dealable; elsewhere it must be one of the
/// available actions.
pub open spec fn walk_step_result(
    depth: usize,
    index: usize,
    is_terminal: bool,
    is_chance: bool,
    possible_cards: u64,
    available_actions: usize,
) -> Option<WalkStep> {
    if is_terminal {
        Some(WalkStep { depth, index, available: 0, is_chance: false })
    } else if is_chance {
        if index >= 52 || !card_bit(possible_cards, index as int) {
            Some(
                WalkStep {
                    depth,
                    index,
                    available: bits_set(possible_cards, 64) as usize,
                    is_chance: true,
                },
            )
        } else {
            None
        }
    } else if index >= available_actions {
        Some(WalkStep { depth, index, available: available_actions, is_chance: false })
    } else {
        None
    }
}

/// Validate one step of a history replay against the node it is taken at.
///
/// # Errors
///
/// The [`WalkStep`] describing the refusal.
pub fn check_walk_step(
    depth: usize,
    index: usize,
    is_terminal: bool,
    is_chance: bool,
    possible_cards: u64,
    available_actions: usize,
) -> (r: Result<(), WalkStep>)
    ensures
        r matches Err(step) ==> walk_step_result(
            depth,
            index,
            is_terminal,
            is_chance,
            possible_cards,
            available_actions,
        ) == Some(step),
        r is Ok ==> walk_step_result(
            depth,
            index,
            is_terminal,
            is_chance,
            possible_cards,
            available_actions,
        ) is None,
{
    if is_terminal {
        return Err(WalkStep { depth, index, available: 0, is_chance: false });
    }
    if is_chance {
        if index >= 52 || (possible_cards >> (index as u64)) & 1 != 1 {
            return Err(
                WalkStep { depth, index, available: count_bits(possible_cards), is_chance: true },
            );
        }
    } else if index >= available_actions {
        return Err(WalkStep { depth, index, available: available_actions, is_chance: false });
    }
    Ok(())
}

/// The smallest of three.
pub open spec fn min3(a: int, b: int, c: int) -> int {
    if a <= b && a <= c {
        a
    } else if b <= c {
        b
    } else {
        c
    }
}

/// The largest of three.
pub open spec fn max3(a: int, b: int, c: int) -> int {
    if a >= b && a >= c {
        a
    } else if b >= c {
        b
    } else {
        c
    }
}

/// The first three board cards' ids, sorted ascending — the engine derives suit isomorphism from
/// the order, and a bunching preparation's flop is compared in this form.
pub fn sorted_flop_ids(board: &[Card]) -> (r: (u8, u8, u8))
    requires
        board@.len() >= 3,
    ensures
        r.0 <= r.1 <= r.2,
        r.0 as int == min3(board@[0].spec_index(), board@[1].spec_index(), board@[2].spec_index()),
        r.2 as int == max3(board@[0].spec_index(), board@[1].spec_index(), board@[2].spec_index()),
        r.0 + r.1 + r.2 == board@[0].spec_index() + board@[1].spec_index() + board@[2].spec_index(),
        r.2 < 52,
{
    let a = board[0].index();
    let b = board[1].index();
    let c = board[2].index();
    let (a, b) = if a <= b {
        (a, b)
    } else {
        (b, a)
    };
    let (b, c) = if b <= c {
        (b, c)
    } else {
        (c, b)
    };
    let (a, b) = if a <= b {
        (a, b)
    } else {
        (b, a)
    };
    (a, b, c)
}

/// Why a lock's history does not reach a node: the step, the card or action it names, and what
/// the node offered.
pub open spec fn lock_walk_text(step: WalkStep) -> Seq<char> {
    "step "@ + decimal(step.depth as nat) + (if step.is_chance {
        " names card "@
    } else {
        " names action "@
    }) + decimal(step.index as nat) + ", but that node offers "@ + decimal(step.available as nat)
}

/// A lock whose history does not reach a node.
pub fn lock_walk_error(index: usize, step: WalkStep) -> (e: EngineError)
    ensures
        e matches EngineError::Lock { index: i, reason } && i == index && reason@ == lock_walk_text(
            step,
        ),
{
    let mut reason = String::from_str("step ");
    append_decimal(&mut reason, step.depth as u64);
    if step.is_chance {
        reason.append(" names card ");
    } else {
        reason.append(" names action ");
    }
    append_decimal(&mut reason, step.index as u64);
    reason.append(", but that node offers ");
    append_decimal(&mut reason, step.available as u64);
    proof {
        assert(reason@ =~= lock_walk_text(step));
    }
    EngineError::Lock { index, reason }
}

/// Why a lock cannot be pinned at the node its history reaches: it is not a decision node, or
/// the strategy's shape (`rows` actions by `cols` hands) is not the node's.
pub open spec fn lock_target_problem(
    is_terminal: bool,
    is_chance: bool,
    rows: usize,
    cols: usize,
    num_actions: usize,
    num_hands: usize,
) -> Option<Seq<char>> {
    if is_terminal || is_chance {
        Some(
            "the node it reaches is not a decision node; only a player's strategy can be pinned"@,
        )
    } else if rows != num_actions || cols != num_hands {
        Some(
            "`strategy` is "@ + decimal(rows as nat) + "x"@ + decimal(cols as nat)
                + " where the node needs "@ + decimal(num_actions as nat) + " actions x "@
                + decimal(num_hands as nat) + " hands"@,
        )
    } else {
        None
    }
}

/// Check the node a lock's history reaches against the lock's strategy.
///
/// # Errors
///
/// [`EngineError::Lock`] naming the lock and the problem.
pub fn check_lock_target(
    index: usize,
    is_terminal: bool,
    is_chance: bool,
    rows: usize,
    cols: usize,
    num_actions: usize,
    num_hands: usize,
) -> (r: Result<(), EngineError>)
    ensures
        r is Ok <==> lock_target_problem(is_terminal, is_chance, rows, cols, num_actions, num_hands)
            is None,
        r is Ok <==> (!is_terminal && !is_chance && rows == num_actions && cols == num_hands),
        r matches Err(e) ==> (e matches EngineError::Lock { index: i, reason } && i == index
            && Some(reason@) == lock_target_problem(
            is_terminal,
            is_chance,
            rows,
            cols,
            num_actions,
            num_hands,
        )),
{
    if is_terminal || is_chance {
        return Err(
            EngineError::Lock {
                index,
                reason: String::from_str(
                    "the node it reaches is not a decision node; only a player's strategy can be pinned",
                ),
            },
        );
    }
    if rows != num_actions || cols != num_hands {
        let mut reason = String::from_str("`strategy` is ");
        append_decimal(&mut reason, rows as u64);
        reason.append("x");
        append_decimal(&mut reason, cols as u64);
        reason.append(" where the node needs ");
        append_decimal(&mut reason, num_actions as u64);
        reason.append(" actions x ");
        append_decimal(&mut reason, num_hands as u64);
        reason.append(" hands");
        return Err(EngineError::Lock { index, reason });
    }
    Ok(())
}

/// A hand as a lock's `hands` guard names it, or `??` for a pair that is not two distinct cards.
pub open spec fn hole_name(h: (u8, u8)) -> Seq<char> {
    if h.0 != h.1 && h.0 < 52 && h.1 < 52 {
        hole_text(h.0 as int, h.1 as int)
    } else {
        "??"@
    }
}

/// The message of a `hands` guard that disagrees with the acting player's hand list at `h`.
pub open spec fn hand_mismatch_text(h: int, expected: Seq<char>, actual: Seq<char>) -> Seq<char> {
    "`hands["@ + decimal(h as nat) + "]` is `"@ + expected + "` but the acting player's hand there is `"@
        + actual + "`"@
}

/// Check a lock's `hands` guard against the acting player's hands, in order: a host that
/// misaligned its columns is told which hand disagrees.
///
/// # Errors
///
/// [`EngineError::Lock`] naming the first disagreeing position, the hand named there, and the
/// hand the player actually holds there.
pub fn check_lock_hands(index: usize, expected: &Vec<String>, holes: &[(u8, u8)]) -> (r: Result<
    (),
    EngineError,
>)
    requires
        expected@.len() <= holes@.len(),
    ensures
        r is Ok <==> forall|h: int| 0 <= h < expected@.len() ==> expected@[h]@ == hole_name(holes@[h]),
        r matches Err(e) ==> exists|h: int|
            0 <= h < expected@.len() && (forall|k: int|
                0 <= k < h ==> expected@[k]@ == hole_name(#[trigger] holes@[k]))
                && expected@[h]@ != hole_name(holes@[h]) && (e matches EngineError::Lock {
                index: i,
                reason,
            } && i == index && reason@ == hand_mismatch_text(
                h,
                expected@[h]@,
                hole_name(holes@[h]),
            )),
{
    let mut h: usize = 0;
    while h < expected.len()
        invariant
            expected@.len() <= holes@.len(),
            h <= expected@.len(),
            forall|k: int| 0 <= k < h ==> expected@[k]@ == hole_name(#[trigger] holes@[k]),
        decreases expected.len() - h,
    {
        let actual = match hole_to_string(holes[h]) {
            Ok(s) => s,
            Err(_) => String::from_str("??"),
        };
        if expected[h] != actual {
            let mut reason = String::from_str("`hands[");
            append_decimal(&mut reason, h as u64);
            reason.append("]` is `");
            reason.append(expected[h].as_str());
            reason.append("` but the acting player's hand there is `");
            reason.append(actual.as_str());
            reason.append("`");
            proof {
                assert(reason@ =~= hand_mismatch_text(h as int, expected@[h as int]@, hole_name(holes@[h as int])));
            }
            return Err(EngineError::Lock { index, reason });
        }
        h += 1;
    }
    Ok(())
}

/// Before the iteration cap the solve loop stops for the first reason that holds: a cancelled
/// loop always stops as cancelled, whatever the measurement says; an uncancelled one stops as
/// converged exactly when the target is reached; and at the cap it always stops, converged or
/// capped by the last measurement.
pub proof fn law_the_loop_stops_for_the_first_reason(t: u32, max_iterations: u32, reached_target: bool)
    ensures
        t < max_iterations ==> loop_decision(t, max_iterations, true, reached_target) == Some(
            Stopped::Cancelled,
        ),
        t < max_iterations && reached_target ==> loop_decision(t, max_iterations, false, true)
            == Some(Stopped::Converged),
        t < max_iterations ==> loop_decision(t, max_iterations, false, false) is None,
        forall|cancelled: bool|
            t >= max_iterations ==> #[trigger] loop_decision(t, max_iterations, cancelled, reached_target)
                == Some(if reached_target { Stopped::Converged } else { Stopped::IterationCap }),
        forall|cancelled: bool|
            #[trigger] loop_decision(t, max_iterations, cancelled, reached_target) is None <==> (t
                < max_iterations && !cancelled && !reached_target),
{
}

/// The bytes a tree needs are its chosen storage — the uncompressed size, or the compressed one
/// when compression is on — plus the whole bunching arena whenever bunching is asked for, in
/// both storage modes.
pub proof fn law_the_bunching_arena_is_always_counted(u: u64, c: u64, x: u64)
    ensures
        needed_bytes(u, c, false, None) == u,
        needed_bytes(u, c, true, None) == c,
        needed_bytes(u, c, false, Some(x)) == u + x,
        needed_bytes(u, c, true, Some(x)) == c + x,
        forall|compress: bool|
            #[trigger] needed_bytes(u, c, compress, Some(x)) == needed_bytes(u, c, compress, None) + x,
{
}

/// A lock is accepted only at a decision node whose shape it matches exactly: as many rows as
/// the node has actions and as many columns as the acting player has hands.
pub proof fn law_a_lock_fits_its_node_exactly(
    is_terminal: bool,
    is_chance: bool,
    rows: usize,
    cols: usize,
    num_actions: usize,
    num_hands: usize,
)
    ensures
        lock_target_problem(is_terminal, is_chance, rows, cols, num_actions, num_hands) is None
            <==> (!is_terminal && !is_chance && rows == num_actions && cols == num_hands),
{
}

/// A spot's memory cap is its own when it gives one, and four gibibytes otherwise; a
/// preparation is refused exactly when its fold-player count's peak exceeds that cap.
pub proof fn law_the_cap_defaults_to_four_gibibytes(l: u64)
    ensures
        memory_limit(Some(l)) == l,
        memory_limit(None) == 4 * 1024 * 1024 * 1024,
{
}

} // verus!
