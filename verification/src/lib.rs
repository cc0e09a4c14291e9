//! Rules engine for an Uno-style card game.
//!
//! - [`cards`]: colors, card types, cards, and what makes a card valid.
//! - [`deck`]: the 108 cards of the deck and the order of a fresh deck.
//! - [`legality`]: which card goes on which.
//! - [`players`]: the hands, whose turn it is, and the direction of play.
//! - [`table`]: a game as a mathematical value, and what each action does
//!   to it.
//! - [`laws`]: what holds of every game.
//! - [`game_state`]: the game itself, with its two actions: play a card, or
//!   draw one.
//! - [`colorize`], [`text`], [`input`]: how a card is shown, and what a
//!   player's typed line means.
//!
//! Every function carries a contract over the model in [`table`], and every
//! contract is verified.

pub mod cards;
pub mod deck;
pub mod legality;
pub mod players;
pub mod table;
pub mod laws;
pub mod game_state;
pub mod colorize;
pub mod input;
pub mod text;
