//! The card model: colors, card types, and the rules that make a card valid.

use vstd::prelude::*;

verus! {

/// The color of a card. `Any` is the sentinel carried by wild cards: it stands
/// for "no fixed color yet" and is not one of the four playable colors.
#[derive(Clone, Copy, Debug, PartialEq, Eq, Structural)]
pub enum Color {
    Green,
    Blue,
    Red,
    Yellow,
    /// No color of its own: the color of a wild card.
    Any,
}

/// What a card does. The two wild types carry the color that the player who
/// played the card chose for it; `Any` there means that no color has been
/// chosen yet.
#[derive(Clone, Copy, Debug, PartialEq, Eq, Structural)]
pub enum CardType {
    /// A number card; the number is one of 0 to 9 on a valid card.
    Number(i32),
    /// Turns the direction of play round.
    Reverse,
    /// The next player misses a turn.
    Skip,
    /// The next player draws two cards and misses a turn.
    Plus2,
    /// Goes on any card and sets the color to play on.
    Wild(Color),
    /// As `Wild`, and the next player draws four cards and misses a turn.
    WildPlus4(Color),
}

/// One playing card. Cards are plain values: two cards with equal fields are
/// the same card.
#[derive(Clone, Copy, Debug, PartialEq, Eq, Structural)]
pub struct Card {
    pub color: Color,
    pub card_type: CardType,
}

/// Why a color and a card type do not make a card.
#[derive(Clone, Copy, Debug, PartialEq, Eq, Structural)]
pub enum InvalidCard {
    /// A wild card type was given one of the four playable colors.
    WildNeedsAnyColor,
    /// The color `Any` was given to a card type that is not wild.
    AnyColorNeedsWild,
    /// A number card was given a number outside 0..=9.
    NumberOutOfRange,
}

impl Color {
    /// One of the four colors that a card can be played as.
    pub open spec fn is_playable(self) -> bool {
        self != Color::Any
    }
}

impl CardType {
    /// `Wild` or `WildPlus4`, whatever color was chosen for it.
    pub open spec fn is_wild(self) -> bool {
        self is Wild || self is WildPlus4
    }

    /// The color chosen for a wild card type; `Any` for every other type and
    /// for a wild type that no color was chosen for.
    pub open spec fn bound_color(self) -> Color {
        match self {
            CardType::Wild(c) => c,
            CardType::WildPlus4(c) => c,
            _ => Color::Any,
        }
    }

    /// Executable form of [`CardType::is_wild`].
    pub fn wild(&self) -> (b: bool)
        ensures
            b == self.is_wild(),
    {
        match self {
            CardType::Wild(_) => true,
            CardType::WildPlus4(_) => true,
            _ => false,
        }
    }
}

impl Card {
    /// The validity rule of the card model: a wild type goes with the color
    /// `Any` and with no other; every other type goes with one of the four
    /// playable colors; a number lies in 0..=9.
    pub open spec fn valid(self) -> bool {
        if self.card_type.is_wild() {
            self.color == Color::Any
        } else {
            &&& self.color != Color::Any
            &&& self.card_type matches CardType::Number(n) ==> 0 <= n <= 9
        }
    }

    /// The card as it lies in a pile to draw from or in a hand: a wild card
    /// without its chosen color, every other card as it is.
    pub open spec fn unbound(self) -> Card {
        match self.card_type {
            CardType::Wild(_) => Card { color: self.color, card_type: CardType::Wild(Color::Any) },
            CardType::WildPlus4(_) => Card {
                color: self.color,
                card_type: CardType::WildPlus4(Color::Any),
            },
            _ => self,
        }
    }

    /// The card as it is placed on the discard pile by a player who chose
    /// `color`: a wild card with that color, every other card as it is.
    pub open spec fn bound_to(self, color: Color) -> Card {
        match self.card_type {
            CardType::Wild(_) => Card { color: self.color, card_type: CardType::Wild(color) },
            CardType::WildPlus4(_) => Card {
                color: self.color,
                card_type: CardType::WildPlus4(color),
            },
            _ => self,
        }
    }

    /// A valid card that carries no chosen color: what a deck, a draw pile and
    /// a hand are made of.
    pub open spec fn loose(self) -> bool {
        self.valid() && self.card_type.bound_color() == Color::Any
    }

    /// Executable form of [`Card::valid`].
    pub fn is_valid(&self) -> (b: bool)
        ensures
            b == self.valid(),
    {
        match self.card_type {
            CardType::Wild(_) => self.color == Color::Any,
            CardType::WildPlus4(_) => self.color == Color::Any,
            CardType::Number(n) => self.color != Color::Any && 0 <= n && n <= 9,
            _ => self.color != Color::Any,
        }
    }

    /// Executable form of [`Card::unbound`].
    pub fn unbind(&self) -> (card: Card)
        ensures
            card == self.unbound(),
    {
        match self.card_type {
            CardType::Wild(_) => Card { color: self.color, card_type: CardType::Wild(Color::Any) },
            CardType::WildPlus4(_) => Card {
                color: self.color,
                card_type: CardType::WildPlus4(Color::Any),
            },
            _ => *self,
        }
    }

    /// Executable form of [`Card::bound_to`].
    pub fn bind(&self, color: Color) -> (card: Card)
        ensures
            card == self.bound_to(color),
    {
        match self.card_type {
            CardType::Wild(_) => Card { color: self.color, card_type: CardType::Wild(color) },
            CardType::WildPlus4(_) => Card {
                color: self.color,
                card_type: CardType::WildPlus4(color),
            },
            _ => *self,
        }
    }

    /// The rule that a color and a card type break, if any: none if and only
    /// if they make a valid card. A wild type with a playable color is
    /// reported first, then `Any` on a type that is not wild, then a number
    /// out of range.
    pub open spec fn defect(color: Color, card_type: CardType) -> Option<InvalidCard> {
        if card_type.is_wild() {
            if color == Color::Any {
                None
            } else {
                Some(InvalidCard::WildNeedsAnyColor)
            }
        } else if color == Color::Any {
            Some(InvalidCard::AnyColorNeedsWild)
        } else if card_type matches CardType::Number(n) && !(0 <= n <= 9) {
            Some(InvalidCard::NumberOutOfRange)
        } else {
            None
        }
    }

    /// The card that follows this one when the distinct cards are gone through
    /// in order: within a color 0 to 9, Reverse, Skip, Plus2; the colors in
    /// the order red, green, blue, yellow; then Wild and WildPlus4. `None`
    /// after WildPlus4, the last one.
    pub open spec fn successor(self) -> Option<Card> {
        match self.card_type {
            CardType::Number(x) => if x < 9 {
                Some(Card { color: self.color, card_type: CardType::Number((x + 1) as i32) })
            } else {
                Some(Card { color: self.color, card_type: CardType::Reverse })
            },
            CardType::Reverse => Some(Card { color: self.color, card_type: CardType::Skip }),
            CardType::Skip => Some(Card { color: self.color, card_type: CardType::Plus2 }),
            CardType::Plus2 => match self.color {
                Color::Red => Some(Card { color: Color::Green, card_type: CardType::Number(0) }),
                Color::Green => Some(Card { color: Color::Blue, card_type: CardType::Number(0) }),
                Color::Blue => Some(Card { color: Color::Yellow, card_type: CardType::Number(0) }),
                Color::Yellow => Some(
                    Card { color: Color::Any, card_type: CardType::Wild(Color::Any) },
                ),
                Color::Any => Some(Card { color: Color::Any, card_type: CardType::Number(0) }),
            },
            CardType::Wild(_) => Some(
                Card { color: self.color, card_type: CardType::WildPlus4(Color::Any) },
            ),
            CardType::WildPlus4(_) => None,
        }
    }

    /// The cursor that stands before the first card of the enumeration: its
    /// successor is the red 0. It is a starting point and not a valid card.
    pub fn new() -> (card: Card)
        ensures
            card == (Card { color: Color::Red, card_type: CardType::Number(-1i32) }),
            card.successor() == Some(Card { color: Color::Red, card_type: CardType::Number(0) }),
    {
        Card { color: Color::Red, card_type: CardType::Number(-1) }
    }

    /// Moves this cursor on to its successor and returns the card it then
    /// stands on. At the end of the enumeration it returns `None` and stays
    /// where it is.
    pub fn next(&mut self) -> (res: Option<Card>)
        requires
            old(self).card_type matches CardType::Number(x) ==> x <= 9,
        ensures
            res == old(self).successor(),
            *final(self) == match res {
                Some(card) => card,
                None => *old(self),
            },
    {
        match self.card_type {
            CardType::Number(x) => {
                if x < 9 {
                    self.card_type = CardType::Number(x + 1);
                } else {
                    self.card_type = CardType::Reverse;
                }
            },
            CardType::Reverse => self.card_type = CardType::Skip,
            CardType::Skip => self.card_type = CardType::Plus2,
            CardType::Plus2 => {
                self.card_type = CardType::Number(0);
                match self.color {
                    Color::Red => self.color = Color::Green,
                    Color::Green => self.color = Color::Blue,
                    Color::Blue => self.color = Color::Yellow,
                    Color::Yellow => {
                        self.color = Color::Any;
                        self.card_type = CardType::Wild(Color::Any);
                    },
                    Color::Any => self.color = Color::Any,
                }
            },
            CardType::Wild(_) => self.card_type = CardType::WildPlus4(Color::Any),
            CardType::WildPlus4(_) => return None,
        }
        Some(*self)
    }

    /// Puts a color and a card type together, valid or not.
    fn new_from_any(color: Color, card_type: CardType) -> (card: Card)
        ensures
            card.color == color,
            card.card_type == card_type,
    {
        Card { color: color, card_type: card_type }
    }

    /// Builds a card after checking it against the validity rule. An invalid
    /// combination is refused and never repaired.
    pub fn new_from(color: Color, card_type: CardType) -> (res: Result<Card, InvalidCard>)
        ensures
            res is Ok <==> (Card { color: color, card_type: card_type }).valid(),
            match res {
                Ok(card) => card == (Card { color: color, card_type: card_type }),
                Err(e) => Card::defect(color, card_type) == Some(e),
            },
    {
        match (color, card_type) {
            (Color::Any, CardType::Wild(_)) | (Color::Any, CardType::WildPlus4(_)) => Ok(
                Card::new_from_any(color, card_type),
            ),
            (_, CardType::Wild(_)) | (_, CardType::WildPlus4(_)) => Err(
                InvalidCard::WildNeedsAnyColor,
            ),
            (Color::Any, _) => Err(InvalidCard::AnyColorNeedsWild),
            (_, CardType::Number(x)) if (x < 0 || x > 9) => Err(InvalidCard::NumberOutOfRange),
            (_, _) => Ok(Card::new_from_any(color, card_type)),
        }
    }
}

} // verus!
