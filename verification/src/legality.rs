//! Which card may be placed on which: the one rule that every play is held to.

use crate::cards::{Card, CardType, Color};
use vstd::prelude::*;

verus! {

impl CardType {
    /// Two card types are of the same rank when they are the same kind of
    /// card: two numbers are so when the numbers are equal, and two wild
    /// types whatever colors were chosen for them.
    pub open spec fn same_rank(self, other: CardType) -> bool {
        match (self, other) {
            (CardType::Number(x), CardType::Number(y)) => x == y,
            (CardType::Reverse, CardType::Reverse) => true,
            (CardType::Skip, CardType::Skip) => true,
            (CardType::Plus2, CardType::Plus2) => true,
            (CardType::Wild(_), CardType::Wild(_)) => true,
            (CardType::WildPlus4(_), CardType::WildPlus4(_)) => true,
            _ => false,
        }
    }

    /// Executable form of [`CardType::same_rank`].
    pub fn is_same_rank(&self, other: &CardType) -> (b: bool)
        ensures
            b == self.same_rank(*other),
    {
        match (self, other) {
            (CardType::Number(x), CardType::Number(y)) => *x == *y,
            (CardType::Reverse, CardType::Reverse) => true,
            (CardType::Skip, CardType::Skip) => true,
            (CardType::Plus2, CardType::Plus2) => true,
            (CardType::Wild(_), CardType::Wild(_)) => true,
            (CardType::WildPlus4(_), CardType::WildPlus4(_)) => true,
            _ => false,
        }
    }
}

impl Card {
    /// The color that a card counts as once it lies on the discard pile: the
    /// color chosen for it if it is a wild card, and its own color if not.
    pub open spec fn effective_color(self) -> Color {
        match self.card_type {
            CardType::Wild(c) => c,
            CardType::WildPlus4(c) => c,
            _ => self.color,
        }
    }

    /// Executable form of [`Card::effective_color`].
    pub fn active_color(&self) -> (c: Color)
        ensures
            c == self.effective_color(),
    {
        match self.card_type {
            CardType::Wild(c) => c,
            CardType::WildPlus4(c) => c,
            _ => self.color,
        }
    }
}

/// The legality rule. A card of color `Any`, that is a wild card in hand,
/// goes on anything. Any other card goes on a card whose effective color is
/// its own color, or whose rank is its own rank, and on nothing else.
pub open spec fn playable(card: Card, onto: Card) -> bool {
    ||| card.color == Color::Any
    ||| card.color == onto.effective_color()
    ||| card.card_type.same_rank(onto.card_type)
}

/// Decides whether `card` may be placed on `onto`. Total: it answers for
/// every pair of cards, valid or not.
pub fn playable_card(card: &Card, onto: &Card) -> (b: bool)
    ensures
        b == playable(*card, *onto),
{
    if card.color == Color::Any {
        true
    } else if card.color == onto.active_color() || card.card_type.is_same_rank(&onto.card_type) {
        true
    } else {
        false
    }
}

/// Legality goes by color or by rank: a card that shares the effective color
/// of the card it is placed on, or its rank, is playable, and a colored card
/// that shares neither is not.
pub proof fn lemma_playable_by_color_or_rank(card: Card, onto: Card)
    ensures
        card.color == onto.effective_color() ==> playable(card, onto),
        card.card_type.same_rank(onto.card_type) ==> playable(card, onto),
        card.color != Color::Any && card.color != onto.effective_color()
            && !card.card_type.same_rank(onto.card_type) ==> !playable(card, onto),
{
}

/// On a valid card that is not wild, the effective color is the card's own
/// color, so that a valid colored card is playable on it exactly when the two
/// share their color or their rank.
pub proof fn lemma_playable_on_colored(card: Card, onto: Card)
    requires
        card.valid(),
        onto.valid(),
        !card.card_type.is_wild(),
        !onto.card_type.is_wild(),
    ensures
        playable(card, onto) <==> card.color == onto.color || card.card_type.same_rank(
            onto.card_type,
        ),
{
}

} // verus!
