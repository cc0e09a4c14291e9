//! How a card is to be shown: in which color, and whether underlined. What
//! is decided here is independent of the terminal that does the showing.

use crate::cards::{Card, Color};
use crate::legality::{playable, playable_card};
use vstd::prelude::*;

verus! {

/// The terminal colors that cards are shown in.
#[derive(Clone, Copy, Debug, PartialEq, Eq, Structural)]
pub enum TermColor {
    Green,
    Blue,
    Red,
    Yellow,
    White,
}

/// How to show one card.
#[derive(Clone, Copy, Debug, PartialEq, Eq, Structural)]
pub struct CardStyle {
    /// The color of the text.
    pub color: TermColor,
    /// Whether the text is underlined, which marks a card that can be played.
    pub underline: bool,
}

/// The terminal color for a card color: each playable color is shown as
/// itself, and `Any` in white.
pub open spec fn term_color(color: Color) -> TermColor {
    match color {
        Color::Green => TermColor::Green,
        Color::Blue => TermColor::Blue,
        Color::Red => TermColor::Red,
        Color::Yellow => TermColor::Yellow,
        Color::Any => TermColor::White,
    }
}

/// The terminal color to show `color` in.
pub fn color_to_term_color(color: &Color) -> (shown: TermColor)
    ensures
        shown == term_color(*color),
{
    match *color {
        Color::Green => TermColor::Green,
        Color::Blue => TermColor::Blue,
        Color::Red => TermColor::Red,
        Color::Yellow => TermColor::Yellow,
        Color::Any => TermColor::White,
    }
}

/// The terminal color to show `card` in: that of its effective color, so
/// that a wild card is shown in the color chosen for it.
pub fn color_card(card: &Card) -> (shown: TermColor)
    ensures
        shown == term_color(card.effective_color()),
{
    color_to_term_color(&card.active_color())
}

/// The style to show `card` in while `onto` is the active card: in the
/// card's color, and underlined if and only if the card can be played.
pub fn underline_if_playable(card: &Card, onto: &Card) -> (style: CardStyle)
    ensures
        style.color == term_color(card.effective_color()),
        style.underline == playable(*card, *onto),
{
    if playable_card(card, onto) {
        CardStyle { color: color_card(card), underline: true }
    } else {
        CardStyle { color: color_card(card), underline: false }
    }
}

} // verus!
