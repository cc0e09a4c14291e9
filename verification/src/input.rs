//! What a player types: the line that names a card to play or asks to draw,
//! and the letter that chooses a color for a wild card.

use crate::cards::{Card, Color};
use crate::game_state::Action;
use crate::players::Players;
use vstd::prelude::*;
use vstd::string::StrSliceExecFns;

verus! {

/// Why a typed line is no action.
#[derive(Clone, Copy, Debug, PartialEq, Eq, Structural)]
pub enum InputError {
    /// The line is a number, but the hand has no card with that number.
    NoSuchCard,
    /// The line is neither a number nor a word that asks to draw.
    NotUnderstood,
}

/// The color that a typed line chooses: `R`, `G`, `B` or `Y`, in either
/// case, and nothing else.
pub open spec fn color_of(text: Seq<char>) -> Option<Color> {
    if text.len() != 1 {
        None
    } else if text[0] == 'R' || text[0] == 'r' {
        Some(Color::Red)
    } else if text[0] == 'G' || text[0] == 'g' {
        Some(Color::Green)
    } else if text[0] == 'B' || text[0] == 'b' {
        Some(Color::Blue)
    } else if text[0] == 'Y' || text[0] == 'y' {
        Some(Color::Yellow)
    } else {
        None
    }
}

/// Reads a color choice.
pub fn parse_color(input: &str) -> (color: Option<Color>)
    ensures
        color == color_of(input@),
{
    if input.unicode_len() != 1 {
        return None;
    }
    let letter: char = input.get_char(0);
    if letter == 'R' || letter == 'r' {
        Some(Color::Red)
    } else if letter == 'G' || letter == 'g' {
        Some(Color::Green)
    } else if letter == 'B' || letter == 'b' {
        Some(Color::Blue)
    } else if letter == 'Y' || letter == 'y' {
        Some(Color::Yellow)
    } else {
        None
    }
}

/// The value of a decimal digit.
pub open spec fn digit(c: char) -> Option<int> {
    if c == '0' {
        Some(0)
    } else if c == '1' {
        Some(1)
    } else if c == '2' {
        Some(2)
    } else if c == '3' {
        Some(3)
    } else if c == '4' {
        Some(4)
    } else if c == '5' {
        Some(5)
    } else if c == '6' {
        Some(6)
    } else if c == '7' {
        Some(7)
    } else if c == '8' {
        Some(8)
    } else if c == '9' {
        Some(9)
    } else {
        None
    }
}

/// The number that a run of decimal digits writes, or `None` if the run is
/// empty or holds anything but digits.
pub open spec fn number(digits: Seq<char>) -> Option<int>
    decreases digits.len(),
{
    if digits.len() == 0 {
        None
    } else {
        match digit(digits.last()) {
            None => None,
            Some(d) => if digits.len() == 1 {
                Some(d)
            } else {
                match number(digits.drop_last()) {
                    None => None,
                    Some(n) => Some(10 * n + d),
                }
            },
        }
    }
}

/// The number that a typed line writes: decimal digits, with a `+` before
/// them or without, as long as the number fits a `usize`.
pub open spec fn written_number(text: Seq<char>) -> Option<usize> {
    let digits = if text.len() > 0 && text[0] == '+' {
        text.skip(1)
    } else {
        text
    };
    match number(digits) {
        Some(n) => if n <= usize::MAX {
            Some(n as usize)
        } else {
            None
        },
        None => None,
    }
}

/// The action that a typed line asks for at a given hand. A number names a
/// card of the hand, counted from 1. `pass` and `p` ask to draw.
pub open spec fn action_of(text: Seq<char>, hand: Seq<Card>) -> Result<Action, InputError> {
    match written_number(text) {
        Some(n) => if 1 <= n <= hand.len() {
            Ok(Action::Play(hand[n - 1], (n - 1) as usize))
        } else {
            Err(InputError::NoSuchCard)
        },
        None => if text == "pass"@ || text == "p"@ {
            Ok(Action::Draw)
        } else {
            Err(InputError::NotUnderstood)
        },
    }
}

/// A run of digits writes a number, every part of it from its start writes
/// one, and none of those is greater than the whole.
proof fn lemma_number_prefix(digits: Seq<char>, len: int)
    requires
        number(digits) is Some,
        0 < len <= digits.len(),
    ensures
        number(digits.take(len)) is Some,
        0 <= number(digits.take(len))->0 <= number(digits)->0,
        digit(digits[len - 1]) is Some,
    decreases digits.len(),
{
    if len == digits.len() {
        assert(digits.take(len) =~= digits);
        if digits.len() > 1 {
            lemma_number_prefix(digits.drop_last(), len - 1);
        }
    } else {
        lemma_number_prefix(digits.drop_last(), len);
        assert(digits.drop_last().take(len) =~= digits.take(len));
    }
}

/// A run of digits with one more digit writes ten times the number and the
/// digit.
proof fn lemma_number_push(digits: Seq<char>, len: int)
    requires
        0 <= len < digits.len(),
        len > 0 ==> number(digits.take(len)) is Some,
        digit(digits[len]) is Some,
    ensures
        number(digits.take(len + 1)) == Some(
            10 * (if len > 0 {
                number(digits.take(len))->0
            } else {
                0
            }) + digit(digits[len])->0,
        ),
{
    assert(digits.take(len + 1).drop_last() =~= digits.take(len));
}

/// The value of `c` as a decimal digit, if it is one.
fn digit_value(c: char) -> (d: Option<usize>)
    ensures
        match d {
            Some(v) => digit(c) == Some(v as int),
            None => digit(c) is None,
        },
{
    if c == '0' {
        Some(0)
    } else if c == '1' {
        Some(1)
    } else if c == '2' {
        Some(2)
    } else if c == '3' {
        Some(3)
    } else if c == '4' {
        Some(4)
    } else if c == '5' {
        Some(5)
    } else if c == '6' {
        Some(6)
    } else if c == '7' {
        Some(7)
    } else if c == '8' {
        Some(8)
    } else if c == '9' {
        Some(9)
    } else {
        None
    }
}

/// Reads a number.
pub fn parse_number(input: &str) -> (n: Option<usize>)
    ensures
        n == written_number(input@),
{
    let len: usize = input.unicode_len();
    let start: usize = if len > 0 && input.get_char(0) == '+' {
        1
    } else {
        0
    };
    if start == len {
        return None;
    }
    let ghost digits = if input@.len() > 0 && input@[0] == '+' {
        input@.skip(1)
    } else {
        input@
    };
    let mut value: usize = 0;
    let mut i: usize = start;
    while i < len
        invariant
            start <= i <= len,
            len == input@.len(),
            digits == input@.skip(start as int),
            digits == if input@.len() > 0 && input@[0] == '+' {
                input@.skip(1)
            } else {
                input@
            },
            i == start ==> value == 0,
            i > start ==> number(digits.take(i - start)) == Some(value as int),
        decreases len - i,
    {
        let d: usize = match digit_value(input.get_char(i)) {
            Some(d) => d,
            None => {
                proof {
                    if number(digits) is Some {
                        lemma_number_prefix(digits, i - start + 1);
                    }
                }
                return None;
            },
        };
        proof {
            lemma_number_push(digits, i - start);
        }
        if value > (usize::MAX - d) / 10 {
            proof {
                if number(digits) is Some {
                    lemma_number_prefix(digits, i - start + 1);
                }
            }
            return None;
        }
        value = value * 10 + d;
        i += 1;
    }
    assert(digits.take(len - start) =~= digits);
    Some(value)
}

/// Reads what the current player typed to take their turn.
pub fn parse_action(input: &str, players: &Players) -> (action: Result<Action, InputError>)
    requires
        players.wf(),
    ensures
        action == action_of(input@, players.hands()[players.current()]),
{
    match parse_number(input) {
        Some(n) => {
            if n == 0 {
                return Err(InputError::NoSuchCard);
            }
            match players.get_from_current_player(n - 1) {
                Some(card) => Ok(Action::Play(*card, n - 1)),
                None => Err(InputError::NoSuchCard),
            }
        },
        None => {
            if is_word(input, "pass") || is_word(input, "p") {
                Ok(Action::Draw)
            } else {
                Err(InputError::NotUnderstood)
            }
        },
    }
}

/// What a line typed at the start menu asks for.
#[derive(Clone, Copy, Debug, PartialEq, Eq, Structural)]
pub enum MenuChoice {
    /// Start the game.
    Start,
    /// Play with this many players.
    Players(usize),
    /// The line asks for no players, or for fewer than none.
    NoPlayers,
    /// The line is neither `start` nor a number.
    NotUnderstood,
}

/// The meaning of a line typed at the start menu: `start` starts the game,
/// a number sets the number of players, and a number that is zero or has a
/// minus sign before it asks for no players.
pub open spec fn menu_choice_of(text: Seq<char>) -> MenuChoice {
    if text == "start"@ {
        MenuChoice::Start
    } else if text.len() > 0 && text[0] == '-' && number(text.skip(1)) is Some {
        MenuChoice::NoPlayers
    } else {
        match written_number(text) {
            Some(n) => if n == 0 {
                MenuChoice::NoPlayers
            } else {
                MenuChoice::Players(n)
            },
            None => MenuChoice::NotUnderstood,
        }
    }
}

/// A run of characters writes a number if and only if it is not empty and
/// holds digits only.
proof fn lemma_number_of_digits(digits: Seq<char>)
    requires
        digits.len() > 0,
        forall|i: int| 0 <= i < digits.len() ==> digit(digits[i]) is Some,
    ensures
        number(digits) is Some,
    decreases digits.len(),
{
    if digits.len() > 1 {
        lemma_number_of_digits(digits.drop_last());
    }
}

/// Whether the characters of `input` from `start` on write a number.
fn writes_number(input: &str, start: usize) -> (written: bool)
    requires
        start <= input@.len(),
    ensures
        written == (number(input@.skip(start as int)) is Some),
{
    let len: usize = input.unicode_len();
    let ghost digits = input@.skip(start as int);
    if start == len {
        return false;
    }
    let mut i: usize = start;
    while i < len
        invariant
            start <= i <= len,
            len == input@.len(),
            digits == input@.skip(start as int),
            forall|j: int| 0 <= j < i - start ==> digit(digits[j]) is Some,
        decreases len - i,
    {
        if digit_value(input.get_char(i)).is_none() {
            proof {
                if number(digits) is Some {
                    lemma_number_prefix(digits, i - start + 1);
                }
            }
            return false;
        }
        i += 1;
    }
    proof {
        lemma_number_of_digits(digits);
    }
    true
}

/// Reads a line typed at the start menu.
pub fn parse_menu(input: &str) -> (choice: MenuChoice)
    ensures
        choice == menu_choice_of(input@),
{
    if is_word(input, "start") {
        return MenuChoice::Start;
    }
    if input.unicode_len() > 0 && input.get_char(0) == '-' && writes_number(input, 1) {
        return MenuChoice::NoPlayers;
    }
    match parse_number(input) {
        Some(n) => if n == 0 {
            MenuChoice::NoPlayers
        } else {
            MenuChoice::Players(n)
        },
        None => MenuChoice::NotUnderstood,
    }
}

/// Whether `input` is the word `word`.
fn is_word(input: &str, word: &str) -> (same: bool)
    ensures
        same == (input@ == word@),
{
    let len: usize = input.unicode_len();
    if len != word.unicode_len() {
        return false;
    }
    let mut i: usize = 0;
    while i < len
        invariant
            i <= len,
            len == input@.len(),
            len == word@.len(),
            forall|j: int| 0 <= j < i ==> input@[j] == word@[j],
        decreases len - i,
    {
        if input.get_char(i) != word.get_char(i) {
            return false;
        }
        i += 1;
    }
    assert(input@ =~= word@);
    true
}

} // verus!
