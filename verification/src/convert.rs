//! The boundary between card ids and the way a player writes cards and actions.
//!
//! [`action_to_string`] and [`action_from_str`] are deliberate inverses: hosts compose edit
//! lines by copying strings out of a node view, so the grammar is exact-match on the rendering.
//! [`lemma_action_round_trip`] proves it.
use vstd::prelude::*;

use crate::cards::{card_text, Card};
use crate::text::{
    append_chars, append_decimal, append_signed, chars_eq, chars_of, decimal, has_prefix,
    parse_i64, parse_i64_spec, signed_decimal, starts_with, sub_chars,
};

verus! {

/// One action of the game tree, as the node view renders it.
#[derive(Debug, Clone, Copy, PartialEq, Eq, Hash)]
pub enum Action {
    /// No action (the root's placeholder); rendered `None`.
    NoAction,
    Fold,
    Check,
    Call,
    Bet(i32),
    Raise(i32),
    AllIn(i32),
    /// A dealt card, by id.
    Chance(u8),
}

/// The rendering of an action.
pub open spec fn action_text(a: Action) -> Seq<char> {
    match a {
        Action::NoAction => "None"@,
        Action::Fold => "Fold"@,
        Action::Check => "Check"@,
        Action::Call => "Call"@,
        Action::Bet(n) => "Bet("@ + signed_decimal(n as int) + ")"@,
        Action::Raise(n) => "Raise("@ + signed_decimal(n as int) + ")"@,
        Action::AllIn(n) => "AllIn("@ + signed_decimal(n as int) + ")"@,
        Action::Chance(c) => if c < 52 {
            "Chance("@ + card_text(c as int) + ")"@
        } else {
            "Chance(?)"@
        },
    }
}

/// The amount action of kind 0 (bet), 1 (raise) or 2 (all-in).
pub open spec fn amount_action(kind: int, v: int) -> Action {
    if kind == 0 {
        Action::Bet(v as i32)
    } else if kind == 1 {
        Action::Raise(v as i32)
    } else {
        Action::AllIn(v as i32)
    }
}

/// The message for an action naming a card.
pub open spec fn chance_error_text() -> Seq<char> {
    "chance actions are omitted from lines; the tree treats all turn/river cards as one node, so card-specific edits are not supported"@
}

/// What follows an amount action's prefix: digits and a closing parenthesis.
pub open spec fn parse_amount_spec(s: Seq<char>, prefix_len: int, kind: int) -> Result<
    Action,
    Seq<char>,
> {
    let rest = s.skip(prefix_len);
    if rest.len() == 0 || rest.last() != ')' {
        Err("`"@ + s + "` is missing its closing parenthesis"@)
    } else {
        let digits = rest.drop_last();
        match parse_i64_spec(digits) {
            None => Err("`"@ + digits + "` is not an amount"@),
            Some(v) => if v <= 0 || v > 0x7fff_ffff {
                Err("`"@ + digits + "` is not a positive 32-bit amount"@)
            } else {
                Ok(amount_action(kind, v))
            },
        }
    }
}

/// What an action line segment parses to: exactly `Fold`, `Check`, `Call`, or `Bet(n)`,
/// `Raise(n)`, `AllIn(n)` with `n` a positive 32-bit integer; otherwise the reason.
pub open spec fn parse_action_spec(s: Seq<char>) -> Result<Action, Seq<char>> {
    if s == "Fold"@ {
        Ok(Action::Fold)
    } else if s == "Check"@ {
        Ok(Action::Check)
    } else if s == "Call"@ {
        Ok(Action::Call)
    } else if starts_with(s, "Chance("@) {
        Err(chance_error_text())
    } else if starts_with(s, "Bet("@) {
        parse_amount_spec(s, "Bet("@.len() as int, 0)
    } else if starts_with(s, "Raise("@) {
        parse_amount_spec(s, "Raise("@.len() as int, 1)
    } else if starts_with(s, "AllIn("@) {
        parse_amount_spec(s, "AllIn("@.len() as int, 2)
    } else {
        Err(
            "`"@ + s
                + "` is not an action; expected Fold, Check, Call, Bet(n), Raise(n) or AllIn(n)"@,
        )
    }
}

/// Whether an executable result carries exactly the spec's answer.
pub open spec fn same_result(r: Result<Action, String>, spec: Result<Action, Seq<char>>) -> bool {
    match r {
        Ok(a) => spec == Ok::<Action, Seq<char>>(a),
        Err(e) => spec == Err::<Action, Seq<char>>(e@),
    }
}

/// One action, rendered the way the node view shows it.
pub fn action_to_string(action: &Action) -> (s: String)
    ensures
        s@ == action_text(*action),
{
    match action {
        Action::NoAction => String::from_str("None"),
        Action::Fold => String::from_str("Fold"),
        Action::Check => String::from_str("Check"),
        Action::Call => String::from_str("Call"),
        Action::Bet(n) => amount_text("Bet(", *n),
        Action::Raise(n) => amount_text("Raise(", *n),
        Action::AllIn(n) => amount_text("AllIn(", *n),
        Action::Chance(c) => match Card::from_index(*c) {
            Some(card) => {
                let mut s = String::from_str("Chance(");
                let name = card.render();
                s.append(name.as_str());
                s.append(")");
                s
            },
            None => String::from_str("Chance(?)"),
        },
    }
}

fn amount_text(prefix: &str, n: i32) -> (s: String)
    ensures
        s@ == prefix@ + signed_decimal(n as int) + ")"@,
{
    let mut s = String::from_str(prefix);
    append_signed(&mut s, n as i64);
    s.append(")");
    s
}

/// The reason text `` `x` `` followed by `tail`.
fn quoted(x: &Vec<char>, tail: &str) -> (s: String)
    ensures
        s@ == "`"@ + x@ + tail@,
{
    let mut s = String::from_str("`");
    append_chars(&mut s, x);
    s.append(tail);
    s
}

fn parse_amount(v: &Vec<char>, prefix_len: usize, kind: u8) -> (r: Result<Action, String>)
    requires
        prefix_len <= v@.len(),
        kind < 3,
    ensures
        same_result(r, parse_amount_spec(v@, prefix_len as int, kind as int)),
{
    let n = v.len();
    let ghost rest = v@.skip(prefix_len as int);
    if n == prefix_len || v[n - 1] != ')' {
        return Err(quoted(v, "` is missing its closing parenthesis"));
    }
    let digits = sub_chars(v, prefix_len, n - 1);
    proof {
        assert(digits@ =~= rest.drop_last());
        assert(rest.last() == v@[n - 1]);
    }
    match parse_i64(&digits) {
        None => Err(quoted(&digits, "` is not an amount")),
        Some(amount) => {
            if amount <= 0 || amount > 0x7fff_ffff {
                Err(quoted(&digits, "` is not a positive 32-bit amount"))
            } else {
                let a = amount as i32;
                if kind == 0 {
                    Ok(Action::Bet(a))
                } else if kind == 1 {
                    Ok(Action::Raise(a))
                } else {
                    Ok(Action::AllIn(a))
                }
            }
        },
    }
}

/// The inverse of [`action_to_string`], for the actions a line may contain.
///
/// # Errors
///
/// A reason naming what was wrong; `Chance(..)` gets a targeted one, because chance actions are
/// omitted from lines.
pub fn action_from_str(s: &str) -> (r: Result<Action, String>)
    ensures
        same_result(r, parse_action_spec(s@)),
{
    let v = chars_of(s);
    if chars_eq(&v, &chars_of("Fold")) {
        return Ok(Action::Fold);
    }
    if chars_eq(&v, &chars_of("Check")) {
        return Ok(Action::Check);
    }
    if chars_eq(&v, &chars_of("Call")) {
        return Ok(Action::Call);
    }
    if has_prefix(&v, &chars_of("Chance(")) {
        return Err(
            String::from_str(
                "chance actions are omitted from lines; the tree treats all turn/river cards as one node, so card-specific edits are not supported",
            ),
        );
    }
    let bet = chars_of("Bet(");
    if has_prefix(&v, &bet) {
        return parse_amount(&v, bet.len(), 0);
    }
    let raise = chars_of("Raise(");
    if has_prefix(&v, &raise) {
        return parse_amount(&v, raise.len(), 1);
    }
    let allin = chars_of("AllIn(");
    if has_prefix(&v, &allin) {
        return parse_amount(&v, allin.len(), 2);
    }
    Err(quoted(&v, "` is not an action; expected Fold, Check, Call, Bet(n), Raise(n) or AllIn(n)"))
}

/// Whether an action is one a line may contain: a fold, check or call, or a bet, raise or
/// all-in of a positive amount.
pub open spec fn line_action(a: Action) -> bool {
    match a {
        Action::Fold | Action::Check | Action::Call => true,
        Action::Bet(n) | Action::Raise(n) | Action::AllIn(n) => n > 0,
        _ => false,
    }
}

/// Rendering then parsing gives back every action a line may contain: the two functions are
/// inverses on the line grammar.
pub proof fn lemma_action_round_trip(a: Action)
    requires
        line_action(a),
    ensures
        parse_action_spec(action_text(a)) == Ok::<Action, Seq<char>>(a),
{
    reveal_strlit("Fold");
    reveal_strlit("Check");
    reveal_strlit("Call");
    reveal_strlit("Chance(");
    reveal_strlit("Bet(");
    reveal_strlit("Raise(");
    reveal_strlit("AllIn(");
    reveal_strlit(")");
    let s = action_text(a);
    assert("Fold"@[0] == 'F' && "Check"@[0] == 'C' && "Check"@[1] == 'h' && "Call"@[1] == 'a');
    assert("Chance("@[0] == 'C' && "Chance("@[1] == 'h' && "Bet("@[0] == 'B' && "Raise("@[0] == 'R');
    match a {
        Action::Fold => {},
        Action::Check => {
            assert(s[0] == 'C');
        },
        Action::Call => {
            assert(s[0] == 'C' && s[1] == 'a');
        },
        Action::Bet(n) | Action::Raise(n) | Action::AllIn(n) => {
            let (prefix, kind) = match a {
                Action::Bet(_) => ("Bet("@, 0int),
                Action::Raise(_) => ("Raise("@, 1int),
                _ => ("AllIn("@, 2int),
            };
            let d = decimal(n as nat);
            crate::text::lemma_parse_decimal(n as nat);
            assert(signed_decimal(n as int) == d);
            assert(s =~= prefix + d + ")"@);
            assert(s[0] == prefix[0]);
            assert(s[0] != 'F' && s[0] != 'C');
            assert(!starts_with(s, "Chance("@)) by {
                if starts_with(s, "Chance("@) {
                    assert(s.take(7)[0] == s[0]);
                }
            }
            assert(s.skip(prefix.len() as int) =~= d + ")"@);
            assert((d + ")"@).drop_last() =~= d);
            assert((d + ")"@).last() == ')');
            if kind >= 1 {
                assert(!starts_with(s, "Bet("@)) by {
                    if starts_with(s, "Bet("@) {
                        assert(s.take(4)[0] == s[0]);
                    }
                }
            }
            if kind == 2 {
                assert(!starts_with(s, "Raise("@)) by {
                    if starts_with(s, "Raise("@) {
                        assert(s.take(6)[0] == s[0]);
                    }
                }
            }
            assert(s.take(prefix.len() as int) =~= prefix);
        },
        _ => {},
    }
}

/// One card, id to card.
///
/// # Errors
///
/// If the id is outside `0..52`.
pub fn from_engine_card(card: u8) -> (r: Result<Card, String>)
    ensures
        r is Ok <==> card < 52,
        r matches Ok(c) ==> c.spec_index() == card,
        r matches Err(e) ==> e@ == "engine returned card id "@ + decimal(card as nat)
            + ", which is not a card"@,
{
    match Card::from_index(card) {
        Some(c) => Ok(c),
        None => {
            let mut e = String::from_str("engine returned card id ");
            append_decimal(&mut e, card as u64);
            e.append(", which is not a card");
            Err(e)
        },
    }
}

/// One card, card to id.
pub fn to_engine_card(card: Card) -> (id: u8)
    ensures
        id as int == card.spec_index(),
        id < 52,
{
    card.index()
}

/// The rendering of a hole pair: the higher card first.
pub open spec fn hole_text(a: int, b: int) -> Seq<char> {
    if a >= b {
        card_text(a) + card_text(b)
    } else {
        card_text(b) + card_text(a)
    }
}

/// Why a hole pair cannot be rendered: the same card twice, or an id that is not a card.
pub open spec fn hole_error_text(a: u8, b: u8) -> Seq<char> {
    if a == b {
        "hole cards are the same card (id "@ + decimal(a as nat) + "), which no deck deals"@
    } else if a >= 52 {
        "engine returned card id "@ + decimal(a as nat) + ", which is not a card"@
    } else {
        "engine returned card id "@ + decimal(b as nat) + ", which is not a card"@
    }
}

/// A pair of hole cards rendered the way a player writes it, higher card first.
///
/// # Errors
///
/// If the two ids are the same card, or either is not a card.
pub fn hole_to_string(hole: (u8, u8)) -> (r: Result<String, String>)
    ensures
        r is Ok <==> (hole.0 != hole.1 && hole.0 < 52 && hole.1 < 52),
        r matches Ok(s) ==> s@ == hole_text(hole.0 as int, hole.1 as int),
        r matches Err(e) ==> e@ == hole_error_text(hole.0, hole.1),
{
    if hole.0 == hole.1 {
        let mut e = String::from_str("hole cards are the same card (id ");
        append_decimal(&mut e, hole.0 as u64);
        e.append("), which no deck deals");
        return Err(e);
    }
    let a = match from_engine_card(hole.0) {
        Ok(c) => c,
        Err(e) => return Err(e),
    };
    let b = match from_engine_card(hole.1) {
        Ok(c) => c,
        Err(e) => return Err(e),
    };
    let (hi, lo) = if a.index() >= b.index() {
        (a, b)
    } else {
        (b, a)
    };
    let mut s = hi.render();
    let low = lo.render();
    s.append(low.as_str());
    Ok(s)
}

} // verus!
