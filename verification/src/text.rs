//! Cards, colors and refusals in words, for whoever shows them to a player.

use crate::cards::{Card, CardType, Color, InvalidCard};
use crate::input::{digit, number};
use crate::table::Rejected;
use vstd::prelude::*;
use vstd::string::StringExecFns;

verus! {

/// The character that writes the digit `d`.
pub open spec fn digit_char(d: int) -> char {
    if d == 0 {
        '0'
    } else if d == 1 {
        '1'
    } else if d == 2 {
        '2'
    } else if d == 3 {
        '3'
    } else if d == 4 {
        '4'
    } else if d == 5 {
        '5'
    } else if d == 6 {
        '6'
    } else if d == 7 {
        '7'
    } else if d == 8 {
        '8'
    } else {
        '9'
    }
}

/// The decimal digits of a natural number, without leading zeros.
pub open spec fn digits(n: nat) -> Seq<char>
    decreases n,
{
    if n < 10 {
        seq![digit_char(n as int)]
    } else {
        digits(n / 10).push(digit_char((n % 10) as int))
    }
}

/// An integer in decimal, with a minus sign if it is negative.
pub open spec fn decimal(n: int) -> Seq<char> {
    if n < 0 {
        seq!['-'] + digits((-n) as nat)
    } else {
        digits(n as nat)
    }
}

/// The name of a color.
pub open spec fn color_text(color: Color) -> Seq<char> {
    match color {
        Color::Red => "Red"@,
        Color::Green => "Green"@,
        Color::Yellow => "Yellow"@,
        Color::Blue => "Blue"@,
        Color::Any => "Any"@,
    }
}

/// A card type in words; a wild type with the color chosen for it.
pub open spec fn type_text(card_type: CardType) -> Seq<char> {
    match card_type {
        CardType::Number(x) => decimal(x as int),
        CardType::Reverse => "Reverse"@,
        CardType::Skip => "Skip"@,
        CardType::Plus2 => "Plus 2"@,
        CardType::Wild(color) => "Wild Card ("@ + color_text(color) + ")"@,
        CardType::WildPlus4(color) => "Wild Plus 4 ("@ + color_text(color) + ")"@,
    }
}

/// A card in words: a wild card by its name alone, every other card by its
/// color and its type.
pub open spec fn card_text(card: Card) -> Seq<char> {
    match card.card_type {
        CardType::Wild(_) => "Wild"@,
        CardType::WildPlus4(_) => "Wild Plus 4"@,
        _ => color_text(card.color) + " "@ + type_text(card.card_type),
    }
}

/// What is written in decimal reads back as the number it was written for.
pub proof fn lemma_digits_read_back(n: nat)
    ensures
        number(digits(n)) == Some(n as int),
    decreases n,
{
    if n >= 10 {
        lemma_digits_read_back(n / 10);
        assert(digits(n).drop_last() =~= digits(n / 10));
    } else {
    }
}

/// The digit `d` as text.
fn digit_text(d: u64) -> (text: &'static str)
    requires
        d < 10,
    ensures
        text@ == seq![digit_char(d as int)],
{
    proof {
        reveal_strlit("0");
        reveal_strlit("1");
        reveal_strlit("2");
        reveal_strlit("3");
        reveal_strlit("4");
        reveal_strlit("5");
        reveal_strlit("6");
        reveal_strlit("7");
        reveal_strlit("8");
        reveal_strlit("9");
    }
    let text: &'static str = if d == 0 {
        "0"
    } else if d == 1 {
        "1"
    } else if d == 2 {
        "2"
    } else if d == 3 {
        "3"
    } else if d == 4 {
        "4"
    } else if d == 5 {
        "5"
    } else if d == 6 {
        "6"
    } else if d == 7 {
        "7"
    } else if d == 8 {
        "8"
    } else {
        "9"
    };
    text
}

/// Writes a natural number in decimal.
fn digits_text(n: u64) -> (text: String)
    ensures
        text@ == digits(n as nat),
    decreases n,
{
    if n < 10 {
        String::from_str(digit_text(n))
    } else {
        let mut text: String = digits_text(n / 10);
        text.append(digit_text(n % 10));
        text
    }
}

/// Writes a number in decimal.
pub fn decimal_text(n: i32) -> (text: String)
    ensures
        text@ == decimal(n as int),
{
    if n < 0 {
        proof {
            reveal_strlit("-");
        }
        let magnitude: u64 = (-(n as i64)) as u64;
        let text: String = String::from_str("-").concat(digits_text(magnitude).as_str());
        text
    } else {
        digits_text(n as u64)
    }
}

impl Color {
    /// The name of the color.
    pub fn name(&self) -> (text: &'static str)
        ensures
            text@ == color_text(*self),
    {
        match self {
            Color::Red => "Red",
            Color::Green => "Green",
            Color::Yellow => "Yellow",
            Color::Blue => "Blue",
            Color::Any => "Any",
        }
    }
}

impl CardType {
    /// The card type in words.
    pub fn text(&self) -> (text: String)
        ensures
            text@ == type_text(*self),
    {
        match self {
            CardType::Number(x) => decimal_text(*x),
            CardType::Reverse => String::from_str("Reverse"),
            CardType::Skip => String::from_str("Skip"),
            CardType::Plus2 => String::from_str("Plus 2"),
            CardType::Wild(color) => String::from_str("Wild Card (").concat(color.name()).concat(
                ")",
            ),
            CardType::WildPlus4(color) => String::from_str("Wild Plus 4 (").concat(
                color.name(),
            ).concat(")"),
        }
    }
}

impl Card {
    /// The card in words.
    pub fn text(&self) -> (text: String)
        ensures
            text@ == card_text(*self),
    {
        match self.card_type {
            CardType::Wild(_) => String::from_str("Wild"),
            CardType::WildPlus4(_) => String::from_str("Wild Plus 4"),
            _ => String::from_str(self.color.name()).concat(" ").concat(
                self.card_type.text().as_str(),
            ),
        }
    }
}

/// The broken rule in words.
pub open spec fn invalid_text(error: InvalidCard) -> Seq<char> {
    match error {
        InvalidCard::WildNeedsAnyColor => "Wild or WildPlus4 card must use Any color"@,
        InvalidCard::AnyColorNeedsWild => "Any color must only be used with Wild or WildPlus4 card type"@,
        InvalidCard::NumberOutOfRange => "Number card type must have a value from 0 to 9"@,
    }
}

/// The reason for a refusal in words.
pub open spec fn rejected_text(reason: Rejected) -> Seq<char> {
    match reason {
        Rejected::NotPlayable => "the card shares neither color nor rank with the active card"@,
        Rejected::MissingColorChoice => "a wild card needs a color chosen for it"@,
    }
}

impl InvalidCard {
    /// The rule that was broken, in words.
    pub fn message(&self) -> (text: &'static str)
        ensures
            text@ == invalid_text(*self),
    {
        match self {
            InvalidCard::WildNeedsAnyColor => "Wild or WildPlus4 card must use Any color",
            InvalidCard::AnyColorNeedsWild => "Any color must only be used with Wild or WildPlus4 card type",
            InvalidCard::NumberOutOfRange => "Number card type must have a value from 0 to 9",
        }
    }
}

impl Rejected {
    /// Why the play was turned down, in words.
    pub fn message(&self) -> (text: &'static str)
        ensures
            text@ == rejected_text(*self),
    {
        match self {
            Rejected::NotPlayable => "the card shares neither color nor rank with the active card",
            Rejected::MissingColorChoice => "a wild card needs a color chosen for it",
        }
    }
}

} // verus!
