//! Cards: ids `rank * 4 + suit` (deuce 0 through ace 12, clubs 0 through spades 3) and their
//! two-character names (`"Td"`, `"As"`).
use vstd::prelude::*;

use crate::text::{chars_of, push_char};

verus! {

/// The rank character of rank `r`: `2`–`9`, `T`, `J`, `Q`, `K`, `A`.
pub open spec fn rank_char(r: int) -> char {
    if r == 0 {
        '2'
    } else if r == 1 {
        '3'
    } else if r == 2 {
        '4'
    } else if r == 3 {
        '5'
    } else if r == 4 {
        '6'
    } else if r == 5 {
        '7'
    } else if r == 6 {
        '8'
    } else if r == 7 {
        '9'
    } else if r == 8 {
        'T'
    } else if r == 9 {
        'J'
    } else if r == 10 {
        'Q'
    } else if r == 11 {
        'K'
    } else {
        'A'
    }
}

/// The suit character of suit `s`: clubs, diamonds, hearts, spades.
pub open spec fn suit_char(s: int) -> char {
    if s == 0 {
        'c'
    } else if s == 1 {
        'd'
    } else if s == 2 {
        'h'
    } else {
        's'
    }
}

/// The rank a character names, or `-1`.
pub open spec fn rank_index(c: char) -> int {
    if c == '2' {
        0
    } else if c == '3' {
        1
    } else if c == '4' {
        2
    } else if c == '5' {
        3
    } else if c == '6' {
        4
    } else if c == '7' {
        5
    } else if c == '8' {
        6
    } else if c == '9' {
        7
    } else if c == 'T' {
        8
    } else if c == 'J' {
        9
    } else if c == 'Q' {
        10
    } else if c == 'K' {
        11
    } else if c == 'A' {
        12
    } else {
        -1
    }
}

/// The suit a character names, or `-1`.
pub open spec fn suit_index(c: char) -> int {
    if c == 'c' {
        0
    } else if c == 'd' {
        1
    } else if c == 'h' {
        2
    } else if c == 's' {
        3
    } else {
        -1
    }
}

/// The two-character name of card id `id`.
pub open spec fn card_text(id: int) -> Seq<char> {
    seq![rank_char(id / 4), suit_char(id % 4)]
}

/// The card id a name denotes: a rank character then a suit character, nothing else.
pub open spec fn card_from_text(s: Seq<char>) -> Option<int> {
    if s.len() == 2 && rank_index(s[0]) >= 0 && suit_index(s[1]) >= 0 {
        Some(rank_index(s[0]) * 4 + suit_index(s[1]))
    } else {
        None
    }
}

/// The message a name that is not a card is refused with.
pub open spec fn card_error_text(s: Seq<char>) -> Seq<char> {
    "`"@ + s + "` is not a card; expected a rank (2-9, T, J, Q, K, A) then a suit (c, d, h, s)"@
}

/// One of the 52 cards.
#[derive(Debug, Clone, Copy, PartialEq, Eq, Hash)]
pub struct Card {
    id: u8,
}

impl Card {
    #[verifier::type_invariant]
    spec fn is_card(self) -> bool {
        self.id < 52
    }

    /// The card's id, `rank * 4 + suit`.
    pub closed spec fn spec_index(self) -> int {
        self.id as int
    }

    /// Every card's id is below 52.
    pub fn index(&self) -> (i: u8)
        ensures
            i as int == self.spec_index(),
            i < 52,
    {
        proof {
            use_type_invariant(self);
        }
        self.id
    }

    /// The card with id `i`, if `i` names one.
    pub fn from_index(i: u8) -> (c: Option<Card>)
        ensures
            c is Some <==> i < 52,
            c matches Some(card) ==> card.spec_index() == i,
    {
        if i < 52 {
            Some(Card { id: i })
        } else {
            None
        }
    }

    /// Parse a two-character card name (`"Td"`).
    ///
    /// # Errors
    ///
    /// A message naming the text, when it is not a rank character followed by a suit character.
    pub fn parse(s: &str) -> (r: Result<Card, String>)
        ensures
            r is Ok <==> card_from_text(s@) is Some,
            r matches Ok(c) ==> card_from_text(s@) == Some(c.spec_index()),
            r matches Err(e) ==> e@ == card_error_text(s@),
    {
        let v = chars_of(s);
        if v.len() == 2 {
            let r = rank_of_char(v[0]);
            let t = suit_of_char(v[1]);
            if r >= 0 && t >= 0 {
                return Ok(Card { id: (r * 4 + t) as u8 });
            }
        }
        let mut e = String::from_str("`");
        e.append(s);
        e.append("` is not a card; expected a rank (2-9, T, J, Q, K, A) then a suit (c, d, h, s)");
        Err(e)
    }

    /// The card's two-character name.
    pub fn render(&self) -> (s: String)
        ensures
            s@ == card_text(self.spec_index()),
    {
        let i = self.index();
        let mut s = String::new();
        push_char(&mut s, rank_to_char(i / 4));
        push_char(&mut s, suit_to_char(i % 4));
        proof {
            assert(s@ =~= card_text(self.spec_index()));
        }
        s
    }
}

/// The rank character of rank `r`.
pub fn rank_to_char(r: u8) -> (c: char)
    requires
        r < 13,
    ensures
        c == rank_char(r as int),
{
    match r {
        0 => '2',
        1 => '3',
        2 => '4',
        3 => '5',
        4 => '6',
        5 => '7',
        6 => '8',
        7 => '9',
        8 => 'T',
        9 => 'J',
        10 => 'Q',
        11 => 'K',
        _ => 'A',
    }
}

/// The suit character of suit `s`.
pub fn suit_to_char(s: u8) -> (c: char)
    requires
        s < 4,
    ensures
        c == suit_char(s as int),
{
    match s {
        0 => 'c',
        1 => 'd',
        2 => 'h',
        _ => 's',
    }
}

/// The rank a character names, or `-1`.
pub fn rank_of_char(c: char) -> (r: i8)
    ensures
        r as int == rank_index(c),
{
    match c {
        '2' => 0,
        '3' => 1,
        '4' => 2,
        '5' => 3,
        '6' => 4,
        '7' => 5,
        '8' => 6,
        '9' => 7,
        'T' => 8,
        'J' => 9,
        'Q' => 10,
        'K' => 11,
        'A' => 12,
        _ => -1,
    }
}

/// The suit a character names, or `-1`.
pub fn suit_of_char(c: char) -> (s: i8)
    ensures
        s as int == suit_index(c),
{
    match c {
        'c' => 0,
        'd' => 1,
        'h' => 2,
        's' => 3,
        _ => -1,
    }
}

/// The name of a card id, or `"??"` for an id that is not a card.
pub fn render_card(card: u8) -> (s: String)
    ensures
        card < 52 ==> s@ == card_text(card as int),
        card >= 52 ==> s@ == "??"@,
{
    match Card::from_index(card) {
        Some(c) => c.render(),
        None => String::from_str("??"),
    }
}

/// Reading a card's name back gives the card: names and ids are one-to-one.
pub proof fn lemma_card_text_round_trip(id: int)
    requires
        0 <= id < 52,
    ensures
        card_from_text(card_text(id)) == Some(id),
{
    let r = id / 4;
    let s = id % 4;
    assert(rank_index(rank_char(r)) == r);
    assert(suit_index(suit_char(s)) == s);
}

} // verus!
