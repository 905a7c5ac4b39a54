//! The input shape: a spot to solve, expressed the way a hand history already describes one.
//!
//! This module holds the parts of a spot that are text — the board, the bet-sizing strings, the
//! tree-edit lines — and their parsing, together with the errors that name the field a caller got
//! wrong.
use vstd::prelude::*;

use crate::cards::{card_error_text, card_from_text, card_text, lemma_card_text_round_trip, Card};
use crate::convert::{action_from_str, action_text, lemma_action_round_trip, line_action, parse_action_spec, Action};
use crate::text::{
    all_digits, append_chars, append_decimal, chars_of, decimal, lemma_decimal_digits, signed_decimal, string_of,
    sub_chars,
};

verus! {

/// A spot the caller described badly.
///
/// Every variant names the field it is about.
#[derive(Debug, Clone, PartialEq, Eq)]
pub enum SpotError {
    Range { notation: String, reason: String },
    Board { board: String, reason: String },
    Sizing { street: &'static str, reason: String },
    Amount { field: &'static str, reason: String },
    EmptyRange { player: &'static str },
    Lock { index: usize, reason: String },
    Line { line: String, reason: String },
    Edit { op: &'static str, line: String, reason: String },
    EmptyNode { line: String },
    Bunching { reason: String },
}

/// The human-readable message of a spot error.
pub open spec fn spot_error_text(e: SpotError) -> Seq<char> {
    match e {
        SpotError::Range { notation, reason } => "`"@ + notation@ + "` is not a range: "@
            + reason@,
        SpotError::Board { board, reason } => "`"@ + board@ + "` is not a board: "@ + reason@,
        SpotError::Sizing { street, reason } => street@ + " bet sizing is invalid: "@ + reason@,
        SpotError::Amount { field, reason } => "`"@ + field@ + "` "@ + reason@,
        SpotError::EmptyRange { player } => "the "@ + player@
            + " range has no combinations left once the board is removed"@,
        SpotError::Lock { index, reason } => "`locks["@ + decimal(index as nat) + "]` is invalid: "@
            + reason@,
        SpotError::Line { line, reason } => "`"@ + line@ + "` is not an action line: "@ + reason@,
        SpotError::Edit { op, line, reason } => "cannot "@ + op@ + " the line `"@ + line@ + "`: "@
            + reason@,
        SpotError::EmptyNode { line } => "these edits leave the node after `"@ + line@
            + "` with no actions"@,
        SpotError::Bunching { reason } => "the bunching configuration is invalid: "@ + reason@,
    }
}

impl SpotError {
    /// The message a host shows for this error.
    pub fn message(&self) -> (s: String)
        ensures
            s@ == spot_error_text(*self),
    {
        match self {
            SpotError::Range { notation, reason } => {
                let mut s = String::from_str("`");
                s.append(notation.as_str());
                s.append("` is not a range: ");
                s.append(reason.as_str());
                s
            },
            SpotError::Board { board, reason } => {
                let mut s = String::from_str("`");
                s.append(board.as_str());
                s.append("` is not a board: ");
                s.append(reason.as_str());
                s
            },
            SpotError::Sizing { street, reason } => {
                let mut s = String::from_str(street);
                s.append(" bet sizing is invalid: ");
                s.append(reason.as_str());
                s
            },
            SpotError::Amount { field, reason } => {
                let mut s = String::from_str("`");
                s.append(field);
                s.append("` ");
                s.append(reason.as_str());
                s
            },
            SpotError::EmptyRange { player } => {
                let mut s = String::from_str("the ");
                s.append(player);
                s.append(" range has no combinations left once the board is removed");
                s
            },
            SpotError::Lock { index, reason } => {
                let mut s = String::from_str("`locks[");
                append_decimal(&mut s, *index as u64);
                s.append("]` is invalid: ");
                s.append(reason.as_str());
                s
            },
            SpotError::Line { line, reason } => {
                let mut s = String::from_str("`");
                s.append(line.as_str());
                s.append("` is not an action line: ");
                s.append(reason.as_str());
                s
            },
            SpotError::Edit { op, line, reason } => {
                let mut s = String::from_str("cannot ");
                s.append(op);
                s.append(" the line `");
                s.append(line.as_str());
                s.append("`: ");
                s.append(reason.as_str());
                s
            },
            SpotError::EmptyNode { line } => {
                let mut s = String::from_str("these edits leave the node after `");
                s.append(line.as_str());
                s.append("` with no actions");
                s
            },
            SpotError::Bunching { reason } => {
                let mut s = String::from_str("the bunching configuration is invalid: ");
                s.append(reason.as_str());
                s
            },
        }
    }
}

/// Bet and raise sizes for one street, in the engine's notation: `"60%"` pot-relative,
/// `"2.5x"` relative to the previous bet, `"e"` geometric, `"a"` all-in, `"100c"` a constant
/// amount — comma-separated for several options.
#[derive(Debug, Clone, PartialEq, Eq)]
pub struct StreetSizing {
    /// First-in bet sizes.
    pub bet: String,
    /// Raise sizes.
    pub raise: String,
}

impl Default for StreetSizing {
    /// Half pot, 2.5× raises — the usual small-tree default.
    fn default() -> (s: StreetSizing)
        ensures
            s.bet@ == "50%"@,
            s.raise@ == "2.5x"@,
    {
        StreetSizing { bet: String::from_str("50%"), raise: String::from_str("2.5x") }
    }
}

impl StreetSizing {
    /// A street with no betting at all: the only line is check-through.
    pub fn none() -> (s: StreetSizing)
        ensures
            s.bet@ == Seq::<char>::empty(),
            s.raise@ == Seq::<char>::empty(),
    {
        StreetSizing { bet: String::new(), raise: String::new() }
    }
}

/// How a solve names the bunching data it wants applied: a preparation job in this session, or
/// a `.bunching` file on disk.
#[derive(Debug, Clone, PartialEq, Eq)]
pub enum BunchingRef {
    Job { job_id: u64 },
    File { path: String },
}

/// The zstd level a spot's files are written with when the caller says nothing: three.
pub fn default_compression_level() -> (l: Option<i32>)
    ensures
        l == Some(3i32),
{
    Some(crate::engine::DEFAULT_COMPRESSION_LEVEL)
}

// ---------------------------------------------------------------------------------------------
// Whitespace.
// ---------------------------------------------------------------------------------------------

/// Unicode `White_Space`, the property `char::is_whitespace` and `str::trim` go by.
pub open spec fn is_space(c: char) -> bool {
    let n = c as int;
    (0x9 <= n <= 0xd) || n == 0x20 || n == 0x85 || n == 0xa0 || n == 0x1680 || (0x2000 <= n
        <= 0x200a) || n == 0x2028 || n == 0x2029 || n == 0x202f || n == 0x205f || n == 0x3000
}

/// Whether a character is Unicode whitespace.
pub fn char_is_space(c: char) -> (b: bool)
    ensures
        b == is_space(c),
{
    let n = c as u32;
    (0x9 <= n && n <= 0xd) || n == 0x20 || n == 0x85 || n == 0xa0 || n == 0x1680 || (0x2000 <= n
        && n <= 0x200a) || n == 0x2028 || n == 0x2029 || n == 0x202f || n == 0x205f || n == 0x3000
}

// ---------------------------------------------------------------------------------------------
// The board.
// ---------------------------------------------------------------------------------------------

/// The board, as text (`"Td9d6h"`, `"Td 9d 6h Qc"`) or as a list of cards
/// (`["Td","9d","6h"]`). Three, four or five cards; the count is the street.
#[derive(Debug, Clone, PartialEq, Eq)]
pub enum BoardSpec {
    Text(String),
    Cards(Vec<String>),
}

/// The characters of `s` without whitespace and commas.
pub open spec fn compact(s: Seq<char>) -> Seq<char>
    decreases s.len(),
{
    if s.len() == 0 {
        s
    } else {
        let rest = compact(s.drop_last());
        if is_space(s.last()) || s.last() == ',' {
            rest
        } else {
            rest.push(s.last())
        }
    }
}

/// Consecutive two-character pieces of `s`.
pub open spec fn pairs(s: Seq<char>) -> Seq<Seq<char>> {
    Seq::new(s.len() / 2, |i: int| s.subrange(2 * i, 2 * i + 2))
}

/// All the pieces, concatenated.
pub open spec fn join_all(ss: Seq<Seq<char>>) -> Seq<char>
    decreases ss.len(),
{
    if ss.len() == 0 {
        Seq::empty()
    } else {
        join_all(ss.drop_last()) + ss.last()
    }
}

/// The views of a list of strings.
pub open spec fn string_views(v: Seq<String>) -> Seq<Seq<char>> {
    v.map_values(|x: String| x@)
}

/// The card names a board spec lists.
pub open spec fn board_tokens(b: BoardSpec) -> Seq<Seq<char>> {
    match b {
        BoardSpec::Text(s) => pairs(compact(s@)),
        BoardSpec::Cards(v) => string_views(v@),
    }
}

/// The board as an error message names it: the text, or the card names run together.
pub open spec fn board_text(b: BoardSpec) -> Seq<char> {
    match b {
        BoardSpec::Text(s) => s@,
        BoardSpec::Cards(v) => join_all(string_views(v@)),
    }
}

/// The first index at or after `i` whose name is not a card, or `-1`.
pub open spec fn first_unparsable(toks: Seq<Seq<char>>, i: int) -> int
    decreases toks.len() - i,
{
    if i >= toks.len() || i < 0 {
        -1
    } else if card_from_text(toks[i]) is None {
        i
    } else {
        first_unparsable(toks, i + 1)
    }
}

/// The first index at or after `i` whose id already occurred before it, or `-1`.
pub open spec fn first_repeat(ids: Seq<int>, i: int) -> int
    decreases ids.len() - i,
{
    if i >= ids.len() || i < 0 {
        -1
    } else if ids.take(i).contains(ids[i]) {
        i
    } else {
        first_repeat(ids, i + 1)
    }
}

/// What a board spec parses to: the card ids in order, or the reason it is not a board.
pub open spec fn board_result(b: BoardSpec) -> Result<Seq<int>, Seq<char>> {
    if b is Text && compact(board_text(b)).len() % 2 == 1 {
        Err("an odd number of characters cannot be a list of cards"@)
    } else {
        let toks = board_tokens(b);
        let bad = first_unparsable(toks, 0);
        if bad >= 0 {
            Err(card_error_text(toks[bad]))
        } else {
            let ids = Seq::new(toks.len(), |i: int| card_from_text(toks[i])->0);
            if !(3 <= ids.len() <= 5) {
                Err("a postflop board is three, four or five cards; got "@ + decimal(
                    ids.len(),
                ))
            } else if first_repeat(ids, 0) >= 0 {
                Err(crate::cards::card_text(ids[first_repeat(ids, 0)]) + " appears twice"@)
            } else {
                Ok(ids)
            }
        }
    }
}

/// The ids of a list of cards.
pub open spec fn card_ids(cards: Seq<Card>) -> Seq<int> {
    cards.map_values(|c: Card| c.spec_index())
}

proof fn lemma_first_unparsable_skip(toks: Seq<Seq<char>>, i: int)
    requires
        0 <= i < toks.len(),
        card_from_text(toks[i]) is Some,
    ensures
        first_unparsable(toks, i) == first_unparsable(toks, i + 1),
{
}

proof fn lemma_first_repeat_skip(ids: Seq<int>, i: int)
    requires
        0 <= i < ids.len(),
        !ids.take(i).contains(ids[i]),
    ensures
        first_repeat(ids, i) == first_repeat(ids, i + 1),
{
}

fn compact_chars(v: &Vec<char>) -> (r: Vec<char>)
    ensures
        r@ == compact(v@),
{
    let mut r: Vec<char> = Vec::new();
    let mut i: usize = 0;
    while i < v.len()
        invariant
            i <= v@.len(),
            r@ == compact(v@.take(i as int)),
        decreases v@.len() - i,
    {
        let c = v[i];
        proof {
            assert(v@.take(i as int + 1).drop_last() =~= v@.take(i as int));
            assert(v@.take(i as int + 1).last() == c);
        }
        if !(char_is_space(c) || c == ',') {
            r.push(c);
        }
        i += 1;
    }
    proof {
        assert(v@.take(v@.len() as int) =~= v@);
    }
    r
}

impl BoardSpec {
    /// The board as error messages name it: the text, or the card names run together.
    pub fn display(&self) -> (t: String)
        ensures
            t@ == board_text(*self),
    {
        match self {
            BoardSpec::Text(s) => s.clone(),
            BoardSpec::Cards(v) => crate::jobs::concat_all(v),
        }
    }

    /// Parse into cards.
    ///
    /// # Errors
    ///
    /// [`SpotError::Board`], naming the board and the reason: an odd number of characters, a
    /// name that is not a card, a count other than three, four or five, or a card twice.
    pub fn cards(&self) -> (r: Result<Vec<Card>, SpotError>)
        ensures
            r matches Ok(cards) ==> board_result(*self) == Ok::<Seq<int>, Seq<char>>(
                card_ids(cards@),
            ),
            r matches Err(e) ==> (e matches SpotError::Board { board, reason } && board@
                == board_text(*self) && board_result(*self) == Err::<Seq<int>, Seq<char>>(
                reason@,
            )),
    {
        // The board as the error messages name it.
        let text = self.display();

        // The card names.
        let mut tokens: Vec<Vec<char>> = Vec::new();
        match self {
            BoardSpec::Text(s) => {
                let compacted = compact_chars(&chars_of(s.as_str()));
                if compacted.len() % 2 == 1 {
                    return Err(
                        SpotError::Board {
                            board: text,
                            reason: String::from_str(
                                "an odd number of characters cannot be a list of cards",
                            ),
                        },
                    );
                }
                proof {
                    assert(compact(board_text(*self)).len() % 2 == 0);
                }
                let half = compacted.len() / 2;
                proof {
                    assert(2 * half <= compacted@.len());
                }
                let mut i: usize = 0;
                while i < half
                    invariant
                        i <= half,
                        half == compacted@.len() / 2,
                        2 * half <= compacted@.len(),
                        compacted@.len() <= usize::MAX,
                        tokens@.len() == i,
                        forall|j: int|
                            0 <= j < i ==> #[trigger] tokens@[j]@ == compacted@.subrange(
                                2 * j,
                                2 * j + 2,
                            ),
                    decreases half - i,
                {
                    tokens.push(sub_chars(&compacted, 2 * i, 2 * i + 2));
                    i += 1;
                }
            },
            BoardSpec::Cards(v) => {
                let mut i: usize = 0;
                while i < v.len()
                    invariant
                        i <= v@.len(),
                        tokens@.len() == i,
                        forall|j: int| 0 <= j < i ==> #[trigger] tokens@[j]@ == v@[j]@,
                    decreases v@.len() - i,
                {
                    tokens.push(chars_of(v[i].as_str()));
                    i += 1;
                }
            },
        }
        proof {
            assert(!(*self is Text && compact(board_text(*self)).len() % 2 == 1));
        }
        let ghost toks = board_tokens(*self);
        proof {
            assert(toks.len() == tokens@.len());
            assert forall|j: int| 0 <= j < toks.len() implies #[trigger] toks[j] == tokens@[j]@ by {}
        }

        // Each name must be a card.
        let mut cards: Vec<Card> = Vec::new();
        let mut i: usize = 0;
        while i < tokens.len()
            invariant
                i <= tokens@.len(),
                toks.len() == tokens@.len(),
                forall|j: int| 0 <= j < toks.len() ==> #[trigger] toks[j] == tokens@[j]@,
                cards@.len() == i,
                forall|j: int|
                    0 <= j < i ==> card_from_text(toks[j]) == Some(#[trigger] cards@[j].spec_index()),
                first_unparsable(toks, 0) == first_unparsable(toks, i as int),
                toks == board_tokens(*self),
                !(*self is Text && compact(board_text(*self)).len() % 2 == 1),
                text@ == board_text(*self),
            decreases tokens@.len() - i,
        {
            let name = string_of(&tokens[i]);
            match Card::parse(name.as_str()) {
                Ok(c) => {
                    proof {
                        lemma_first_unparsable_skip(toks, i as int);
                    }
                    cards.push(c);
                },
                Err(reason) => {
                    proof {
                        assert(first_unparsable(toks, i as int) == i as int);
                        assert(reason@ == card_error_text(toks[i as int]));
                        assert(board_result(*self) == Err::<Seq<int>, Seq<char>>(reason@));
                    }
                    return Err(SpotError::Board { board: text, reason });
                },
            }
            i += 1;
        }
        let ghost ids = Seq::new(toks.len(), |j: int| card_from_text(toks[j])->0);
        proof {
            assert(card_ids(cards@) =~= ids);
        }

        let n = cards.len();
        if n < 3 || n > 5 {
            let mut reason = String::from_str("a postflop board is three, four or five cards; got ");
            append_decimal(&mut reason, n as u64);
            return Err(SpotError::Board { board: text, reason });
        }

        // No card twice.
        let mut seen: Vec<bool> = Vec::new();
        let mut k: usize = 0;
        while k < 52
            invariant
                k <= 52,
                seen@.len() == k,
                forall|c: int| 0 <= c < k ==> !#[trigger] seen@[c],
            decreases 52 - k,
        {
            seen.push(false);
            k += 1;
        }
        let mut i: usize = 0;
        while i < n
            invariant
                i <= n,
                n == cards@.len(),
                ids == card_ids(cards@),
                seen@.len() == 52,
                forall|c: int| 0 <= c < 52 ==> #[trigger] seen@[c] == ids.take(i as int).contains(c),
                first_repeat(ids, 0) == first_repeat(ids, i as int),
                toks == board_tokens(*self),
                ids == Seq::new(toks.len(), |j: int| card_from_text(toks[j])->0),
                first_unparsable(toks, 0) == -1,
                3 <= n <= 5,
                !(*self is Text && compact(board_text(*self)).len() % 2 == 1),
                text@ == board_text(*self),
            decreases n - i,
        {
            let idx = cards[i].index();
            proof {
                assert(ids[i as int] == idx as int);
            }
            if seen[idx as usize] {
                proof {
                    assert(ids.take(i as int).contains(ids[i as int]));
                    assert(first_repeat(ids, i as int) == i as int);
                }
                let mut reason = cards[i].render();
                reason.append(" appears twice");
                return Err(SpotError::Board { board: text, reason });
            }
            proof {
                lemma_first_repeat_skip(ids, i as int);
                assert(ids.take(i as int + 1) =~= ids.take(i as int).push(ids[i as int]));
                assert forall|c: int| 0 <= c < 52 implies #[trigger] seen@.update(idx as int, true)[c]
                    == ids.take(i as int + 1).contains(c) by {
                    if c == idx as int {
                        assert(ids.take(i as int + 1)[i as int] == c);
                    } else {
                        if ids.take(i as int + 1).contains(c) {
                            let k = choose|k: int| 0 <= k < i + 1 && #[trigger] ids.take(i as int + 1)[k] == c;
                            assert(k < i);
                            assert(ids.take(i as int)[k] == c);
                        }
                        if ids.take(i as int).contains(c) {
                            let k = choose|k: int| 0 <= k < i && #[trigger] ids.take(i as int)[k] == c;
                            assert(ids.take(i as int + 1)[k] == c);
                        }
                    }
                }
            }
            seen.set(idx as usize, true);
            i += 1;
        }
        Ok(cards)
    }
}

// ---------------------------------------------------------------------------------------------
// Tree-edit lines.
// ---------------------------------------------------------------------------------------------

/// The comma-separated pieces of `s`; an empty string is one empty piece.
pub open spec fn split_commas(s: Seq<char>) -> Seq<Seq<char>>
    decreases s.len(),
{
    if s.len() == 0 {
        seq![Seq::<char>::empty()]
    } else {
        let before = split_commas(s.drop_last());
        if s.last() == ',' {
            before.push(Seq::empty())
        } else {
            before.update(before.len() - 1, before.last().push(s.last()))
        }
    }
}

/// The index of the first character at or after `i` that is not whitespace, or the length.
pub open spec fn lead_from(s: Seq<char>, i: int) -> int
    decreases s.len() - i,
{
    if i >= s.len() || i < 0 {
        s.len() as int
    } else if is_space(s[i]) {
        lead_from(s, i + 1)
    } else {
        i
    }
}

/// One past the last character before `j` that is not whitespace, or zero.
pub open spec fn trail_from(s: Seq<char>, j: int) -> int
    decreases j,
{
    if j <= 0 {
        0
    } else if is_space(s[j - 1]) {
        trail_from(s, j - 1)
    } else {
        j
    }
}

/// `s` without leading and trailing whitespace.
pub open spec fn trim(s: Seq<char>) -> Seq<char> {
    let a = lead_from(s, 0);
    if a >= s.len() {
        Seq::empty()
    } else {
        s.subrange(a, trail_from(s, s.len() as int))
    }
}

/// The trimmed segments of an edit line.
pub open spec fn line_segments(line: Seq<char>) -> Seq<Seq<char>> {
    split_commas(line).map_values(|seg: Seq<char>| trim(seg))
}

/// The index of the first segment at or after `i` that does not parse, or `-1`.
pub open spec fn first_bad_action(segs: Seq<Seq<char>>, i: int) -> int
    decreases segs.len() - i,
{
    if i >= segs.len() || i < 0 {
        -1
    } else if parse_action_spec(segs[i]) is Err {
        i
    } else {
        first_bad_action(segs, i + 1)
    }
}

/// What one edit line parses to: its actions, or the reason it is not an action line.
pub open spec fn line_result(line: Seq<char>) -> Result<Seq<Action>, Seq<char>> {
    let segs = line_segments(line);
    if exists|i: int| 0 <= i < segs.len() && #[trigger] segs[i].len() == 0 {
        Err("a line needs at least one action, and no empty ones"@)
    } else if segs.len() > 64 {
        Err("too many actions in one line (the cap is 64)"@)
    } else if first_bad_action(segs, 0) >= 0 {
        Err(parse_action_spec(segs[first_bad_action(segs, 0)])->Err_0)
    } else {
        Ok(Seq::new(segs.len(), |i: int| parse_action_spec(segs[i])->Ok_0))
    }
}

fn split_on_commas(v: &Vec<char>) -> (r: Vec<Vec<char>>)
    ensures
        r@.len() == split_commas(v@).len(),
        forall|i: int| 0 <= i < r@.len() ==> #[trigger] r@[i]@ == split_commas(v@)[i],
{
    let mut r: Vec<Vec<char>> = Vec::new();
    r.push(Vec::new());
    let mut i: usize = 0;
    proof {
        assert(v@.take(0) =~= Seq::<char>::empty());
    }
    while i < v.len()
        invariant
            i <= v@.len(),
            r@.len() == split_commas(v@.take(i as int)).len(),
            r@.len() >= 1,
            forall|j: int| 0 <= j < r@.len() ==> #[trigger] r@[j]@ == split_commas(v@.take(i as int))[j],
        decreases v@.len() - i,
    {
        let c = v[i];
        let ghost before = split_commas(v@.take(i as int));
        proof {
            assert(v@.take(i as int + 1).drop_last() =~= v@.take(i as int));
            assert(v@.take(i as int + 1).last() == c);
        }
        if c == ',' {
            r.push(Vec::new());
            proof {
                assert forall|j: int| 0 <= j < r@.len() implies #[trigger] r@[j]@ == split_commas(
                    v@.take(i as int + 1),
                )[j] by {
                    if j == r@.len() - 1 {
                        assert(r@[j]@ =~= Seq::<char>::empty());
                    }
                }
            }
        } else {
            let last = r.len() - 1;
            let mut piece = r.pop().unwrap();
            piece.push(c);
            r.push(piece);
            proof {
                assert forall|j: int| 0 <= j < r@.len() implies #[trigger] r@[j]@ == split_commas(
                    v@.take(i as int + 1),
                )[j] by {
                    if j == last as int {
                        assert(r@[j]@ =~= before.last().push(c));
                    }
                }
            }
        }
        i += 1;
    }
    proof {
        assert(v@.take(v@.len() as int) =~= v@);
    }
    r
}

fn trim_chars(v: &Vec<char>) -> (r: Vec<char>)
    ensures
        r@ == trim(v@),
{
    let n = v.len();
    let mut a: usize = 0;
    while a < n && char_is_space(v[a])
        invariant
            a <= n,
            n == v@.len(),
            lead_from(v@, 0) == lead_from(v@, a as int),
        decreases n - a,
    {
        a += 1;
    }
    if a >= n {
        return Vec::new();
    }
    let mut b: usize = n;
    while b > 0 && char_is_space(v[b - 1])
        invariant
            b <= n,
            n == v@.len(),
            a < n,
            !is_space(v@[a as int]),
            b > a,
            trail_from(v@, n as int) == trail_from(v@, b as int),
        decreases b,
    {
        b -= 1;
    }
    sub_chars(v, a, b)
}

/// Parse one edit line into actions.
fn parse_line(line: &String) -> (r: Result<Vec<Action>, String>)
    ensures
        r matches Ok(actions) ==> line_result(line@) == Ok::<Seq<Action>, Seq<char>>(actions@),
        r matches Err(reason) ==> line_result(line@) == Err::<Seq<Action>, Seq<char>>(reason@),
{
    let pieces = split_on_commas(&chars_of(line.as_str()));
    let ghost segs = line_segments(line@);
    let mut trimmed: Vec<Vec<char>> = Vec::new();
    let mut any_empty = false;
    let mut i: usize = 0;
    while i < pieces.len()
        invariant
            i <= pieces@.len(),
            segs == line_segments(line@),
            pieces@.len() == segs.len(),
            forall|j: int| 0 <= j < pieces@.len() ==> #[trigger] trim(pieces@[j]@) == segs[j],
            trimmed@.len() == i,
            forall|j: int| 0 <= j < i ==> #[trigger] trimmed@[j]@ == segs[j],
            any_empty == exists|j: int| 0 <= j < i && #[trigger] segs[j].len() == 0,
        decreases pieces@.len() - i,
    {
        let t = trim_chars(&pieces[i]);
        if t.len() == 0 {
            any_empty = true;
        }
        trimmed.push(t);
        i += 1;
    }
    if any_empty {
        return Err(String::from_str("a line needs at least one action, and no empty ones"));
    }
    if trimmed.len() > 64 {
        return Err(String::from_str("too many actions in one line (the cap is 64)"));
    }
    let mut actions: Vec<Action> = Vec::new();
    let mut i: usize = 0;
    while i < trimmed.len()
        invariant
            i <= trimmed@.len(),
            trimmed@.len() == segs.len(),
            forall|j: int| 0 <= j < trimmed@.len() ==> #[trigger] trimmed@[j]@ == segs[j],
            actions@.len() == i,
            forall|j: int| 0 <= j < i ==> parse_action_spec(segs[j]) == Ok::<Action, Seq<char>>(
                #[trigger] actions@[j],
            ),
            first_bad_action(segs, 0) == first_bad_action(segs, i as int),
            segs == line_segments(line@),
            segs.len() <= 64,
            !(exists|j: int| 0 <= j < segs.len() && #[trigger] segs[j].len() == 0),
        decreases trimmed@.len() - i,
    {
        let text = string_of(&trimmed[i]);
        match action_from_str(text.as_str()) {
            Ok(a) => actions.push(a),
            Err(reason) => {
                proof {
                    assert(first_bad_action(segs, i as int) == i as int);
                }
                return Err(reason);
            },
        }
        i += 1;
    }
    proof {
        assert(actions@ =~= Seq::new(segs.len(), |j: int| parse_action_spec(segs[j])->Ok_0));
    }
    Ok(actions)
}

/// The index of the first line at or after `i` that is not an action line, or `-1`.
pub open spec fn first_bad_line(lines: Seq<String>, i: int) -> int
    decreases lines.len() - i,
{
    if i >= lines.len() || i < 0 {
        -1
    } else if line_result(lines[i]@) is Err {
        i
    } else {
        first_bad_line(lines, i + 1)
    }
}

/// What a list of edit lines parses to: the actions of each line, or the index of the first
/// line that is not an action line with its reason.
pub open spec fn lines_result(lines: Seq<String>) -> Result<Seq<Seq<Action>>, (int, Seq<char>)> {
    let k = first_bad_line(lines, 0);
    if k >= 0 {
        Err((k, line_result(lines[k]@)->Err_0))
    } else {
        Ok(Seq::new(lines.len(), |i: int| line_result(lines[i]@)->Ok_0))
    }
}

/// The views of parsed lines.
pub open spec fn lines_view(v: Seq<Vec<Action>>) -> Seq<Seq<Action>> {
    v.map_values(|a: Vec<Action>| a@)
}

/// Whether an executable parse of `lines` carries exactly [`lines_result`].
pub open spec fn parsed_lines_match(
    lines: Seq<String>,
    r: Result<Vec<Vec<Action>>, SpotError>,
) -> bool {
    match r {
        Ok(v) => lines_result(lines) == Ok::<Seq<Seq<Action>>, (int, Seq<char>)>(lines_view(v@)),
        Err(e) => lines_result(lines) is Err && (e matches SpotError::Line { line, reason } && line@
            == lines[lines_result(lines)->Err_0.0]@ && reason@ == lines_result(lines)->Err_0.1),
    }
}

/// Parse each edit line into actions, rejecting anything the grammar does not name.
///
/// # Errors
///
/// [`SpotError::Line`] for the first line that has an empty segment, more than 64 actions, or a
/// segment that is not an action.
pub fn parse_lines(lines: &[String]) -> (r: Result<Vec<Vec<Action>>, SpotError>)
    ensures
        parsed_lines_match(lines@, r),
{
    let mut out: Vec<Vec<Action>> = Vec::new();
    let mut i: usize = 0;
    while i < lines.len()
        invariant
            i <= lines@.len(),
            out@.len() == i,
            forall|j: int| 0 <= j < i ==> line_result(lines@[j]@) == Ok::<Seq<Action>, Seq<char>>(
                #[trigger] out@[j]@,
            ),
            first_bad_line(lines@, 0) == first_bad_line(lines@, i as int),
        decreases lines@.len() - i,
    {
        match parse_line(&lines[i]) {
            Ok(actions) => out.push(actions),
            Err(reason) => {
                return Err(SpotError::Line { line: lines[i].clone(), reason });
            },
        }
        i += 1;
    }
    proof {
        assert(lines_view(out@) =~= Seq::new(lines@.len(), |j: int| line_result(lines@[j]@)->Ok_0));
    }
    Ok(out)
}

/// At most this many edit lines, added and removed together.
pub const MAX_EDIT_LINES: usize = 512;

/// Parse a spot's added and removed lines.
///
/// # Errors
///
/// [`SpotError::Line`] naming `…` when there are more than 512 lines in all, else the first bad
/// added line, else the first bad removed line.
pub fn parse_edit_lines(added: &[String], removed: &[String]) -> (r: Result<
    (Vec<Vec<Action>>, Vec<Vec<Action>>),
    SpotError,
>)
    ensures
        added@.len() + removed@.len() > 512 ==> (r matches Err(e) && e matches SpotError::Line {
            line,
            reason,
        } && line@ == "…"@ && reason@ == "too many lines (the cap is 512)"@),
        added@.len() + removed@.len() <= 512 ==> match r {
            Ok((a, b)) => parsed_lines_match(added@, Ok(a)) && parsed_lines_match(removed@, Ok(b)),
            Err(e) => parsed_lines_match(added@, Err(e)) || (lines_result(added@) is Ok
                && parsed_lines_match(removed@, Err(e))),
        },
{
    if added.len() > MAX_EDIT_LINES || removed.len() > MAX_EDIT_LINES - added.len() {
        return Err(
            SpotError::Line {
                line: String::from_str("…"),
                reason: String::from_str("too many lines (the cap is 512)"),
            },
        );
    }
    let a = match parse_lines(added) {
        Ok(a) => a,
        Err(e) => return Err(e),
    };
    let b = match parse_lines(removed) {
        Ok(b) => b,
        Err(e) => return Err(e),
    };
    Ok((a, b))
}

/// The actions of a line, rendered and joined with `", "`.
pub open spec fn join_actions(line: Seq<Action>) -> Seq<char>
    decreases line.len(),
{
    if line.len() == 0 {
        Seq::empty()
    } else if line.len() == 1 {
        action_text(line[0])
    } else {
        join_actions(line.drop_last()) + ", "@ + action_text(line.last())
    }
}

/// A parsed line rendered back into the canonical grammar: `(root)` for the empty line.
pub open spec fn line_text(line: Seq<Action>) -> Seq<char> {
    if line.len() == 0 {
        "(root)"@
    } else {
        join_actions(line)
    }
}

/// Render a parsed line back into the canonical grammar, for error messages.
pub fn render_line(line: &[Action]) -> (s: String)
    ensures
        s@ == line_text(line@),
{
    if line.len() == 0 {
        return String::from_str("(root)");
    }
    let mut s = crate::convert::action_to_string(&line[0]);
    proof {
        assert(line@.take(1).drop_last() =~= Seq::<Action>::empty());
        assert(join_actions(line@.take(1)) == action_text(line@[0]));
    }
    let mut i: usize = 1;
    while i < line.len()
        invariant
            1 <= i <= line@.len(),
            s@ == join_actions(line@.take(i as int)),
        decreases line@.len() - i,
    {
        s.append(", ");
        let t = crate::convert::action_to_string(&line[i]);
        s.append(t.as_str());
        proof {
            assert(line@.take(i as int + 1).drop_last() =~= line@.take(i as int));
            assert(line@.take(i as int + 1).last() == line@[i as int]);
        }
        i += 1;
    }
    proof {
        assert(line@.take(line@.len() as int) =~= line@);
    }
    s
}

/// The amount checks of a spot, in the order they are reported.
pub open spec fn amounts_error(
    pot: i32,
    effective_stack: i32,
    rake_rate_in_unit: bool,
    rake_cap_non_negative: bool,
    max_iterations: u32,
    check_interval: u32,
) -> Option<(Seq<char>, Seq<char>)> {
    if pot <= 0 {
        Some(("pot"@, "must be greater than zero"@))
    } else if effective_stack <= 0 {
        Some(("effectiveStack"@, "must be greater than zero"@))
    } else if !rake_rate_in_unit {
        Some(("rake.rate"@, "must be between 0 and 1"@))
    } else if !rake_cap_non_negative {
        Some(("rake.cap"@, "must not be negative"@))
    } else if max_iterations == 0 {
        Some(("stop.maxIterations"@, "must be at least one"@))
    } else if check_interval == 0 {
        Some(("stop.checkInterval"@, "must be at least one"@))
    } else {
        None
    }
}

/// Validate a spot's amounts: a positive pot and stack, a rake rate within `0..=1` and a cap that
/// is not negative (judged by the caller, since those are fractional), and at least one
/// iteration and one iteration between measurements.
///
/// # Errors
///
/// [`SpotError::Amount`] naming the first field that fails.
pub fn check_spot_amounts(
    pot: i32,
    effective_stack: i32,
    rake_rate_in_unit: bool,
    rake_cap_non_negative: bool,
    max_iterations: u32,
    check_interval: u32,
) -> (r: Result<(), SpotError>)
    ensures
        r is Ok <==> amounts_error(
            pot,
            effective_stack,
            rake_rate_in_unit,
            rake_cap_non_negative,
            max_iterations,
            check_interval,
        ) is None,
        r matches Err(e) ==> (e matches SpotError::Amount { field, reason } && (field@, reason@)
            == amounts_error(
            pot,
            effective_stack,
            rake_rate_in_unit,
            rake_cap_non_negative,
            max_iterations,
            check_interval,
        )->0),
{
    if pot <= 0 {
        return Err(
            SpotError::Amount { field: "pot", reason: String::from_str("must be greater than zero") },
        );
    }
    if effective_stack <= 0 {
        return Err(
            SpotError::Amount {
                field: "effectiveStack",
                reason: String::from_str("must be greater than zero"),
            },
        );
    }
    if !rake_rate_in_unit {
        return Err(
            SpotError::Amount {
                field: "rake.rate",
                reason: String::from_str("must be between 0 and 1"),
            },
        );
    }
    if !rake_cap_non_negative {
        return Err(
            SpotError::Amount { field: "rake.cap", reason: String::from_str("must not be negative") },
        );
    }
    if max_iterations == 0 {
        return Err(
            SpotError::Amount {
                field: "stop.maxIterations",
                reason: String::from_str("must be at least one"),
            },
        );
    }
    if check_interval == 0 {
        return Err(
            SpotError::Amount {
                field: "stop.checkInterval",
                reason: String::from_str("must be at least one"),
            },
        );
    }
    Ok(())
}

/// A bunching preparation's flop: the board must parse and be exactly three cards.
pub open spec fn bunching_flop_reason(n: nat) -> Seq<char> {
    "a bunching flop is exactly three cards; got "@ + decimal(n)
}

/// The cards of a bunching preparation's flop.
///
/// # Errors
///
/// The board's own parse error, or [`SpotError::Board`] when it holds other than three cards.
pub fn bunching_flop(flop: &BoardSpec) -> (r: Result<Vec<Card>, SpotError>)
    ensures
        board_result(*flop) is Ok && board_result(*flop)->Ok_0.len() == 3 ==> (r matches Ok(
            cards,
        ) && card_ids(cards@) == board_result(*flop)->Ok_0),
        board_result(*flop) is Ok && board_result(*flop)->Ok_0.len() != 3 ==> (r matches Err(
            SpotError::Board { board, reason },
        ) && board@ == board_text(*flop) && reason@ == bunching_flop_reason(
            board_result(*flop)->Ok_0.len(),
        )),
        board_result(*flop) is Err ==> (r matches Err(SpotError::Board { board, reason })
            && board@ == board_text(*flop) && reason@ == board_result(*flop)->Err_0),
{
    let cards = match flop.cards() {
        Ok(cards) => cards,
        Err(e) => return Err(e),
    };
    if cards.len() != 3 {
        proof {
            assert(card_ids(cards@).len() == cards@.len());
        }
        let mut reason = String::from_str("a bunching flop is exactly three cards; got ");
        append_decimal(&mut reason, cards.len() as u64);
        return Err(SpotError::Board { board: flop.display(), reason });
    }
    Ok(cards)
}

/// Why a lock's shape is refused, checked in this order: no action rows, an empty first row,
/// rows of different lengths, values that are not finite and non-negative (judged by the caller,
/// since they are fractional), a `hands` list of the wrong length, and a history entry that is
/// not an explicit index.
pub open spec fn lock_problem(
    row_lens: Seq<usize>,
    values_ok: bool,
    hands_len: Option<usize>,
    history: Seq<usize>,
) -> Option<Seq<char>> {
    if row_lens.len() == 0 {
        Some("`strategy` needs at least one action row"@)
    } else if row_lens[0] == 0 {
        Some("`strategy` rows need at least one hand column"@)
    } else if exists|i: int| 0 <= i < row_lens.len() && #[trigger] row_lens[i] != row_lens[0] {
        Some("every `strategy` row must have the same number of hands"@)
    } else if !values_ok {
        Some("`strategy` values must be finite and non-negative"@)
    } else if hands_len is Some && hands_len->0 != row_lens[0] {
        Some("`hands` must have exactly one entry per `strategy` column"@)
    } else if history.contains(usize::MAX) {
        Some("`history` entries must be explicit indices"@)
    } else {
        None
    }
}

/// The syntactic half of a lock's validation: everything checkable without a tree, so a bad
/// lock fails the `solve` command instead of the job.
///
/// # Errors
///
/// [`SpotError::Lock`] with the lock's index and the first problem found.
pub fn check_lock_shape(
    index: usize,
    row_lens: &[usize],
    values_ok: bool,
    hands_len: Option<usize>,
    history: &[usize],
) -> (r: Result<(), SpotError>)
    ensures
        r is Ok <==> lock_problem(row_lens@, values_ok, hands_len, history@) is None,
        r matches Err(e) ==> (e matches SpotError::Lock { index: i, reason } && i == index
            && Some(reason@) == lock_problem(row_lens@, values_ok, hands_len, history@)),
{
    if row_lens.len() == 0 {
        return Err(
            SpotError::Lock {
                index,
                reason: String::from_str("`strategy` needs at least one action row"),
            },
        );
    }
    let first = row_lens[0];
    if first == 0 {
        return Err(
            SpotError::Lock {
                index,
                reason: String::from_str("`strategy` rows need at least one hand column"),
            },
        );
    }
    let mut i: usize = 0;
    while i < row_lens.len()
        invariant
            i <= row_lens@.len(),
            row_lens@.len() > 0,
            first != 0,
            first == row_lens@[0],
            forall|k: int| 0 <= k < i ==> row_lens@[k] == first,
        decreases row_lens.len() - i,
    {
        if row_lens[i] != first {
            proof {
                assert(row_lens@[i as int] != row_lens@[0]);
            }
            return Err(
                SpotError::Lock {
                    index,
                    reason: String::from_str(
                        "every `strategy` row must have the same number of hands",
                    ),
                },
            );
        }
        i += 1;
    }
    if !values_ok {
        return Err(
            SpotError::Lock {
                index,
                reason: String::from_str("`strategy` values must be finite and non-negative"),
            },
        );
    }
    match hands_len {
        Some(n) => {
            if n != first {
                return Err(
                    SpotError::Lock {
                        index,
                        reason: String::from_str(
                            "`hands` must have exactly one entry per `strategy` column",
                        ),
                    },
                );
            }
        },
        None => {},
    }
    let mut j: usize = 0;
    while j < history.len()
        invariant
            j <= history@.len(),
            forall|k: int| 0 <= k < j ==> history@[k] != usize::MAX,
            row_lens@.len() > 0,
            first == row_lens@[0],
            first != 0,
            forall|k: int| 0 <= k < row_lens@.len() ==> row_lens@[k] == first,
            values_ok,
            hands_len is Some ==> hands_len->0 == first,
        decreases history.len() - j,
    {
        if history[j] == usize::MAX {
            proof {
                assert(history@.contains(usize::MAX));
            }
            return Err(
                SpotError::Lock {
                    index,
                    reason: String::from_str("`history` entries must be explicit indices"),
                },
            );
        }
        j += 1;
    }
    Ok(())
}

/// With no repeat from `i` on, no id from `i` on occurs before its position.
proof fn lemma_no_repeat_from(ids: Seq<int>, i: int)
    requires
        0 <= i,
        first_repeat(ids, i) < 0,
    ensures
        forall|j: int| i <= j < ids.len() ==> !ids.take(j).contains(#[trigger] ids[j]),
    decreases ids.len() - i,
{
    if i < ids.len() {
        lemma_no_repeat_from(ids, i + 1);
    }
}

/// With every name from `i` on a card, nothing from `i` on is unparsable.
proof fn lemma_all_parsable_from(toks: Seq<Seq<char>>, i: int)
    requires
        0 <= i,
        forall|j: int| i <= j < toks.len() ==> #[trigger] card_from_text(toks[j]) is Some,
    ensures
        first_unparsable(toks, i) == -1,
    decreases toks.len() - i,
{
    if i < toks.len() {
        lemma_all_parsable_from(toks, i + 1);
    }
}

/// With no id from `i` on occurring before its position, there is no repeat from `i` on.
proof fn lemma_no_repeat_to(ids: Seq<int>, i: int)
    requires
        0 <= i,
        forall|j: int| i <= j < ids.len() ==> !ids.take(j).contains(#[trigger] ids[j]),
    ensures
        first_repeat(ids, i) == -1,
    decreases ids.len() - i,
{
    if i < ids.len() {
        lemma_no_repeat_to(ids, i + 1);
    }
}

/// A parsed board is a street: three, four or five cards, each one of the 52, none twice.
pub proof fn law_a_parsed_board_is_a_street(b: BoardSpec)
    requires
        board_result(b) is Ok,
    ensures
        3 <= board_result(b)->Ok_0.len() <= 5,
        forall|i: int| 0 <= i < board_result(b)->Ok_0.len() ==> 0 <= #[trigger] board_result(b)->Ok_0[i] < 52,
        forall|i: int, j: int|
            0 <= i < j < board_result(b)->Ok_0.len() ==> board_result(b)->Ok_0[i]
                != board_result(b)->Ok_0[j],
{
    let ids = board_result(b)->Ok_0;
    let toks = board_tokens(b);
    assert(first_unparsable(toks, 0) < 0);
    assert(ids == Seq::new(toks.len(), |i: int| card_from_text(toks[i])->0));
    assert(first_repeat(ids, 0) < 0);
    lemma_no_repeat_from(ids, 0);
    assert forall|i: int, j: int| 0 <= i < j < ids.len() implies ids[i] != ids[j] by {
        assert(ids.take(j)[i] == ids[i]);
        if ids[i] == ids[j] {
            assert(ids.take(j).contains(ids[j]));
        }
    }
    assert forall|i: int| 0 <= i < ids.len() implies 0 <= #[trigger] ids[i] < 52 by {
        lemma_parsable_below(toks, 0, i);
        assert(card_from_text(toks[i]) is Some);
    }
}

/// With nothing unparsable from `i` on, every name from `i` on is a card.
proof fn lemma_parsable_below(toks: Seq<Seq<char>>, i: int, k: int)
    requires
        0 <= i <= k < toks.len(),
        first_unparsable(toks, i) < 0,
    ensures
        card_from_text(toks[k]) is Some,
    decreases k - i,
{
    if i < k {
        lemma_parsable_below(toks, i + 1, k);
    }
}

/// The names of three, four or five distinct cards, given as a list, read back as those cards:
/// a board a host renders card by card is the board it gets.
pub proof fn law_card_names_read_back_as_the_board(cards: Seq<int>, names: Vec<String>)
    requires
        3 <= cards.len() <= 5,
        forall|i: int| 0 <= i < cards.len() ==> 0 <= #[trigger] cards[i] < 52,
        forall|i: int, j: int| 0 <= i < j < cards.len() ==> cards[i] != cards[j],
        names@.len() == cards.len(),
        forall|i: int| 0 <= i < cards.len() ==> #[trigger] names@[i]@ == card_text(cards[i]),
    ensures
        board_result(BoardSpec::Cards(names)) == Ok::<Seq<int>, Seq<char>>(cards),
{
    let b = BoardSpec::Cards(names);
    let toks = board_tokens(b);
    assert forall|j: int| 0 <= j < toks.len() implies #[trigger] card_from_text(toks[j]) == Some(cards[j]) by {
        lemma_card_text_round_trip(cards[j]);
    }
    lemma_all_parsable_from(toks, 0);
    let ids = Seq::new(toks.len(), |i: int| card_from_text(toks[i])->0);
    assert(ids =~= cards);
    assert forall|j: int| 0 <= j < ids.len() implies !ids.take(j).contains(#[trigger] ids[j]) by {
        if ids.take(j).contains(ids[j]) {
            let k = choose|k: int| 0 <= k < ids.take(j).len() && ids.take(j)[k] == ids[j];
            assert(ids[k] == ids[j]);
        }
    }
    lemma_no_repeat_to(ids, 0);
}

/// Whether a text holds no comma.
pub open spec fn no_comma(s: Seq<char>) -> bool {
    forall|i: int| 0 <= i < s.len() ==> s[i] != ','
}

/// An action a line may contain renders without commas, and neither starts nor ends with
/// whitespace.
proof fn lemma_action_text_shape(a: Action)
    requires
        line_action(a),
    ensures
        no_comma(action_text(a)),
        action_text(a).len() > 0,
        !is_space(action_text(a)[0]),
        !is_space(action_text(a).last()),
{
    reveal_strlit("Fold");
    reveal_strlit("Check");
    reveal_strlit("Call");
    reveal_strlit("Bet(");
    reveal_strlit("Raise(");
    reveal_strlit("AllIn(");
    reveal_strlit(")");
    match a {
        Action::Bet(n) | Action::Raise(n) | Action::AllIn(n) => {
            lemma_decimal_digits(n as nat);
            let d = decimal(n as nat);
            assert(signed_decimal(n as int) == d);
            let head = if a is Bet {
                "Bet("@
            } else if a is Raise {
                "Raise("@
            } else {
                "AllIn("@
            };
            assert(action_text(a) == head + d + ")"@);
            assert forall|i: int| 0 <= i < action_text(a).len() implies action_text(a)[i] != ',' by {
                if i >= head.len() && i < head.len() + d.len() {
                    assert(action_text(a)[i] == d[i - head.len()]);
                }
            }
        },
        _ => {},
    }
}

/// The pieces of `x` then `y`, when `y` holds no comma: `y` joins the last piece of `x`.
proof fn lemma_split_append(x: Seq<char>, y: Seq<char>)
    requires
        no_comma(y),
    ensures
        split_commas(x).len() >= 1,
        split_commas(x + y) == split_commas(x).update(
            split_commas(x).len() - 1,
            split_commas(x).last() + y,
        ),
    decreases y.len(),
{
    lemma_split_nonempty(x);
    if y.len() == 0 {
        assert(x + y =~= x);
        assert(split_commas(x).last() + y =~= split_commas(x).last());
        assert(split_commas(x).update(split_commas(x).len() - 1, split_commas(x).last())
            =~= split_commas(x));
    } else {
        let y0 = y.drop_last();
        lemma_split_append(x, y0);
        assert((x + y).drop_last() =~= x + y0);
        assert((x + y).last() == y.last());
        assert(split_commas(x).last() + y =~= (split_commas(x).last() + y0).push(y.last()));
        assert(split_commas(x + y) =~= split_commas(x).update(
            split_commas(x).len() - 1,
            split_commas(x).last() + y,
        ));
    }
}

/// A text always splits into at least one piece.
proof fn lemma_split_nonempty(x: Seq<char>)
    ensures
        split_commas(x).len() >= 1,
    decreases x.len(),
{
    if x.len() > 0 {
        lemma_split_nonempty(x.drop_last());
    }
}

/// The pieces a rendered line splits into: the first action's text, then each other action's
/// text after the space that follows its comma.
pub open spec fn rendered_pieces(line: Seq<Action>) -> Seq<Seq<char>>
    decreases line.len(),
{
    if line.len() <= 1 {
        Seq::new(line.len(), |i: int| action_text(line[i]))
    } else {
        rendered_pieces(line.drop_last()).push(" "@ + action_text(line.last()))
    }
}

proof fn lemma_split_rendered(line: Seq<Action>)
    requires
        line.len() >= 1,
        forall|i: int| 0 <= i < line.len() ==> line_action(#[trigger] line[i]),
    ensures
        split_commas(join_actions(line)) == rendered_pieces(line),
    decreases line.len(),
{
    reveal_strlit(", ");
    reveal_strlit(" ");
    if line.len() == 1 {
        lemma_action_text_shape(line[0]);
        lemma_split_append(Seq::empty(), action_text(line[0]));
        assert(Seq::<char>::empty() + action_text(line[0]) =~= action_text(line[0]));
        assert(split_commas(Seq::<char>::empty()) =~= seq![Seq::<char>::empty()]);
        assert(rendered_pieces(line) =~= seq![action_text(line[0])]);
        assert(split_commas(join_actions(line)) =~= seq![action_text(line[0])]);
    } else {
        let init = line.drop_last();
        assert forall|i: int| 0 <= i < init.len() implies line_action(#[trigger] init[i]) by {
            assert(init[i] == line[i]);
        }
        lemma_split_rendered(init);
        lemma_action_text_shape(line.last());
        let t = action_text(line.last());
        let y = " "@ + t;
        assert(no_comma(y)) by {
            assert forall|i: int| 0 <= i < y.len() implies y[i] != ',' by {
                if i >= 1 {
                    assert(y[i] == t[i - 1]);
                }
            }
        }
        let x = join_actions(init).push(',');
        assert(join_actions(line) =~= x + y);
        lemma_split_append(x, y);
        assert(x.drop_last() =~= join_actions(init));
        assert(split_commas(x) =~= split_commas(join_actions(init)).push(Seq::empty()));
        assert(Seq::<char>::empty() + y =~= y);
        assert(split_commas(join_actions(line)) =~= rendered_pieces(init).push(y));
    }
}

/// Trimming a clean text, or a clean text after one space, gives the clean text.
proof fn lemma_trim_clean(t: Seq<char>)
    requires
        t.len() > 0,
        !is_space(t[0]),
        !is_space(t.last()),
    ensures
        trim(t) == t,
        trim(seq![' '] + t) == t,
{
    assert(lead_from(t, 0) == 0);
    assert(trail_from(t, t.len() as int) == t.len());
    assert(t.subrange(0, t.len() as int) =~= t);
    let u = seq![' '] + t;
    assert(is_space(u[0]));
    assert(u[1] == t[0]);
    assert(lead_from(u, 1) == 1);
    assert(lead_from(u, 0) == 1);
    assert(u[u.len() - 1] == t.last());
    assert(trail_from(u, u.len() as int) == u.len());
    assert(u.subrange(1, u.len() as int) =~= t);
}

proof fn lemma_no_bad_action_from(segs: Seq<Seq<char>>, i: int)
    requires
        0 <= i,
        forall|j: int| i <= j < segs.len() ==> #[trigger] parse_action_spec(segs[j]) is Ok,
    ensures
        first_bad_action(segs, i) == -1,
    decreases segs.len() - i,
{
    if i < segs.len() {
        lemma_no_bad_action_from(segs, i + 1);
    }
}

/// A line of actions, rendered the way node views and tree-edit lines write it, parses back
/// to the same actions: the edit-line grammar is exactly the node rendering.
pub proof fn law_a_rendered_line_parses_back(line: Seq<Action>)
    requires
        1 <= line.len() <= 64,
        forall|i: int| 0 <= i < line.len() ==> line_action(#[trigger] line[i]),
    ensures
        line_result(line_text(line)) == Ok::<Seq<Action>, Seq<char>>(line),
{
    reveal_strlit(" ");
    lemma_split_rendered(line);
    let pieces = rendered_pieces(line);
    let segs = line_segments(join_actions(line));
    assert(line_text(line) == join_actions(line));
    assert(pieces.len() == line.len()) by {
        lemma_pieces_len(line);
    }
    assert forall|i: int| 0 <= i < segs.len() implies #[trigger] segs[i] == action_text(line[i]) by {
        lemma_piece_at(line, i);
        lemma_action_text_shape(line[i]);
        lemma_trim_clean(action_text(line[i]));
        assert(" "@ =~= seq![' ']);
    }
    assert forall|i: int| 0 <= i < segs.len() implies #[trigger] parse_action_spec(segs[i]) == Ok::<Action, Seq<char>>(line[i]) by {
        lemma_action_round_trip(line[i]);
    }
    assert forall|i: int| 0 <= i < segs.len() implies #[trigger] segs[i].len() != 0 by {
        lemma_action_text_shape(line[i]);
    }
    lemma_no_bad_action_from(segs, 0);
    assert(Seq::new(segs.len(), |i: int| parse_action_spec(segs[i])->Ok_0) =~= line);
}

proof fn lemma_pieces_len(line: Seq<Action>)
    ensures
        rendered_pieces(line).len() == line.len(),
    decreases line.len(),
{
    if line.len() > 1 {
        lemma_pieces_len(line.drop_last());
    }
}

/// Piece `i` of a rendered line is action `i`'s text, after a space unless it is the first.
proof fn lemma_piece_at(line: Seq<Action>, i: int)
    requires
        0 <= i < line.len(),
    ensures
        rendered_pieces(line).len() == line.len(),
        i == 0 ==> rendered_pieces(line)[i] == action_text(line[i]),
        i > 0 ==> rendered_pieces(line)[i] == " "@ + action_text(line[i]),
    decreases line.len(),
{
    lemma_pieces_len(line);
    if line.len() > 1 && i < line.len() - 1 {
        lemma_piece_at(line.drop_last(), i);
        lemma_pieces_len(line.drop_last());
    }
}

/// A lock's shape is accepted exactly when it has at least one action row, every row has the
/// same positive number of hand columns, its values are finite and non-negative, a `hands`
/// guard (if any) names one hand per column, and its history holds only explicit indices.
pub proof fn law_a_lock_shape_is_a_full_matrix(
    row_lens: Seq<usize>,
    values_ok: bool,
    hands_len: Option<usize>,
    history: Seq<usize>,
)
    ensures
        lock_problem(row_lens, values_ok, hands_len, history) is None <==> (row_lens.len() > 0
            && row_lens[0] > 0 && (forall|i: int| 0 <= i < row_lens.len() ==> #[trigger] row_lens[i]
            == row_lens[0]) && values_ok && (hands_len is Some ==> hands_len->0 == row_lens[0])
            && (forall|i: int| 0 <= i < history.len() ==> #[trigger] history[i] != usize::MAX)),
{
    if lock_problem(row_lens, values_ok, hands_len, history) is None {
        assert forall|i: int| 0 <= i < history.len() implies #[trigger] history[i] != usize::MAX by {
            if history[i] == usize::MAX {
                assert(history.contains(usize::MAX));
            }
        }
    }
}

} // verus!
