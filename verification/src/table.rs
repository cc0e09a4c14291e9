//! The state of a game as a mathematical value, and what dealing, drawing
//! and playing do to it. The executable game state is specified against this
//! model.

use crate::cards::{Card, CardType, Color};
use crate::deck::standard_bag;
use crate::game_state::Action;
use crate::legality::playable;
use crate::players::TurnOrder;
use vstd::multiset::Multiset;
use vstd::prelude::*;

verus! {

/// Number of cards that each player is dealt at the start.
pub const STARTING_HAND_SIZE: usize = 7;

/// Why an attempt to play a card was turned down. Either way the game is as
/// it was before the attempt.
#[derive(Clone, Copy, Debug, PartialEq, Eq, Structural)]
pub enum Rejected {
    /// The card does not go on the active card.
    NotPlayable,
    /// The card is wild and no playable color was chosen for it.
    MissingColorChoice,
}

/// A game at rest between two actions.
pub struct Table {
    /// The direction in which the turn passes.
    pub turn_order: TurnOrder,
    /// The seat of the player whose turn it is.
    pub current: int,
    /// The hands, in seating order.
    pub hands: Seq<Seq<Card>>,
    /// The draw pile; its last card is drawn next.
    pub draw: Seq<Card>,
    /// The discard pile; its last card is the active card.
    pub discard: Seq<Card>,
}

/// The number of cards in all hands together.
pub open spec fn hands_total(hands: Seq<Seq<Card>>) -> nat
    decreases hands.len(),
{
    if hands.len() == 0 {
        0
    } else {
        hands_total(hands.drop_last()) + hands.last().len()
    }
}

/// The cards of all hands together, as a bag.
pub open spec fn hands_bag(hands: Seq<Seq<Card>>) -> Multiset<Card>
    decreases hands.len(),
{
    if hands.len() == 0 {
        Multiset::empty()
    } else {
        hands_bag(hands.drop_last()).add(hands.last().to_multiset())
    }
}

/// The cards of a pile with every chosen color taken off again.
pub open spec fn unbound_all(cards: Seq<Card>) -> Seq<Card> {
    cards.map_values(|card: Card| card.unbound())
}

/// The first `n` cards that come off a pile, in the order in which they come:
/// the last card of the pile first.
pub open spec fn off_top(pile: Seq<Card>, n: nat) -> Seq<Card> {
    Seq::new(n, |i: int| pile[pile.len() - 1 - i])
}

/// The place of the topmost card of a pile that has a color of its own, or
/// `-1` if the pile holds wild cards only.
pub open spec fn top_colored(pile: Seq<Card>) -> int
    decreases pile.len(),
{
    if pile.len() == 0 {
        -1
    } else if pile.last().color != Color::Any {
        pile.len() - 1
    } else {
        top_colored(pile.drop_last())
    }
}

/// The place of the first occurrence of `card` in `hand`, or the length of
/// the hand if it does not occur.
pub open spec fn first_index(hand: Seq<Card>, card: Card) -> int
    decreases hand.len(),
{
    if hand.len() == 0 {
        0
    } else if hand.first() == card {
        0
    } else {
        1 + first_index(hand.drop_first(), card)
    }
}

/// How the two piles stand after `cards` were drawn from them one by one.
///
/// While the draw pile lasts, the cards come off its top. When it is used up
/// and another card is wanted, the discard pile is recycled: all of it but
/// the active card goes back, chosen colors taken off, and is shuffled into a
/// new draw pile. The order after the shuffle is open; what is fixed is which
/// cards the new draw pile and the cards drawn from it are together.
pub open spec fn drawn(
    draw: Seq<Card>,
    discard: Seq<Card>,
    cards: Seq<Card>,
    draw_after: Seq<Card>,
    discard_after: Seq<Card>,
) -> bool {
    if cards.len() <= draw.len() {
        &&& cards == off_top(draw, cards.len())
        &&& draw_after == draw.take(draw.len() - cards.len())
        &&& discard_after == discard
    } else {
        &&& cards.take(draw.len() as int) == off_top(draw, draw.len())
        &&& discard_after == seq![discard.last()]
        &&& (draw_after + cards.skip(draw.len() as int)).to_multiset() == unbound_all(
            discard.drop_last(),
        ).to_multiset()
    }
}

/// How many cards the next player has to draw when a card of this type is
/// played.
pub open spec fn penalty(card_type: CardType) -> nat {
    match card_type {
        CardType::Number(_) => 0,
        CardType::Reverse => 0,
        CardType::Skip => 0,
        CardType::Plus2 => 2,
        CardType::Wild(_) => 0,
        CardType::WildPlus4(_) => 4,
    }
}

/// The color choice that comes with the card of an action: a wild card is
/// named together with the color chosen for it, and any other card alone.
pub open spec fn chosen_color(card: Card) -> Option<Color> {
    if card.card_type.is_wild() {
        Some(card.card_type.bound_color())
    } else {
        None
    }
}

/// A color choice that binds a wild card: one of the four playable colors.
pub open spec fn binds(bound_color: Option<Color>) -> bool {
    bound_color matches Some(color) && color.is_playable()
}

impl Table {
    /// The number of cards in the game: both piles and all hands.
    pub open spec fn card_count(self) -> nat {
        self.draw.len() + self.discard.len() + hands_total(self.hands)
    }

    /// The cards in the game as a bag, the cards of the discard pile counted
    /// without their chosen colors.
    pub open spec fn census(self) -> Multiset<Card> {
        self.draw.to_multiset().add(unbound_all(self.discard).to_multiset()).add(
            hands_bag(self.hands),
        )
    }

    /// The card on top of the discard pile, against which a play is judged.
    pub open spec fn active(self) -> Card {
        self.discard.last()
    }

    /// The number of cards that can still be drawn: the draw pile, and what
    /// lies under the active card.
    pub open spec fn stock(self) -> int {
        self.draw.len() + self.discard.len() - 1
    }

    /// The player whose turn it is has a seat at the table.
    pub open spec fn seated(self) -> bool {
        0 <= self.current < self.hands.len()
    }

    /// The invariant of a game. The current player is seated. The cards in
    /// the game are those of one full deck, so that there are 108 of them.
    /// There is an active card, and it has a color: its own, or the one
    /// chosen for it. Apart from the player whose turn it is, nobody is out
    /// of cards.
    pub open spec fn wf(self) -> bool {
        &&& self.seated()
        &&& self.census() == standard_bag()
        &&& self.discard.len() > 0
        &&& self.active().effective_color() != Color::Any
        &&& forall|p: int|
            0 <= p < self.hands.len() && p != self.current ==> (#[trigger] self.hands[p]).len() > 0
    }

    /// The winner: the player whose turn it is, once their hand is empty.
    pub open spec fn winner(self) -> Option<int> {
        if self.hands[self.current].len() == 0 {
            Some(self.current)
        } else {
            None
        }
    }

    /// The seat that the turn passes to.
    pub open spec fn next_seat(self) -> int {
        self.turn_order.step(self.current, self.hands.len() as int)
    }

    /// The table after the turn has passed on once.
    pub open spec fn advanced(self) -> Table {
        Table { current: self.next_seat(), ..self }
    }

    /// The table after the direction was reversed.
    pub open spec fn reversed(self) -> Table {
        Table { turn_order: self.turn_order.flipped(), ..self }
    }

    /// `after` is this table once the player at `seat` has drawn `n` cards,
    /// one by one, into their hand. The turn stays where it is.
    pub open spec fn draws(self, seat: int, n: nat, after: Table) -> bool {
        let cards = after.hands[seat].skip(self.hands[seat].len() as int);
        &&& after.turn_order == self.turn_order
        &&& after.current == self.current
        &&& cards.len() == n
        &&& after.hands == self.hands.update(seat, self.hands[seat] + cards)
        &&& drawn(self.draw, self.discard, cards, after.draw, after.discard)
    }

    /// What an attempt to play `card` with the color choice `bound_color` is
    /// answered with.
    pub open spec fn verdict(self, card: Card, bound_color: Option<Color>) -> Result<(), Rejected> {
        if !playable(card, self.active()) {
            Err(Rejected::NotPlayable)
        } else if card.card_type.is_wild() && !binds(bound_color) {
            Err(Rejected::MissingColorChoice)
        } else {
            Ok(())
        }
    }

    /// The card as it comes to lie on the discard pile.
    pub open spec fn placed(card: Card, bound_color: Option<Color>) -> Card {
        match bound_color {
            Some(color) => card.bound_to(color),
            None => card,
        }
    }

    /// The table once the current player has taken `card` out of their hand
    /// and placed it on the discard pile, before the card takes effect.
    pub open spec fn laid(self, card: Card, bound_color: Option<Color>) -> Table {
        let hand = self.hands[self.current];
        Table {
            hands: self.hands.update(self.current, hand.remove(first_index(hand, card))),
            discard: self.discard.push(Table::placed(card, bound_color)),
            ..self
        }
    }

    /// `after` is this table once the turn has passed to the next player, who
    /// has drawn `n` cards and lost the turn to the player after.
    pub open spec fn penalized(self, n: nat, after: Table) -> bool {
        let target = self.next_seat();
        &&& self.advanced().draws(target, n, Table { current: target, ..after })
        &&& after.current == self.advanced().next_seat()
    }

    /// `after` is this table once a card of type `card_type`, already placed,
    /// has taken effect. Every effect ends with the turn passing on.
    ///
    /// A number or a wild card passes the turn on once. Reverse flips the
    /// direction first. Skip passes the turn on twice. Plus2 and WildPlus4
    /// pass it to the next player, who draws two or four cards and loses the
    /// turn to the player after.
    pub open spec fn resolved(self, card_type: CardType, after: Table) -> bool {
        match card_type {
            CardType::Number(_) => after == self.advanced(),
            CardType::Reverse => after == self.reversed().advanced(),
            CardType::Skip => after == self.advanced().advanced(),
            CardType::Plus2 => self.penalized(2, after),
            CardType::Wild(_) => after == self.advanced(),
            CardType::WildPlus4(_) => self.penalized(4, after),
        }
    }

    /// `after` is this table once `card` was played on it and accepted. A
    /// player who lays down their last card has won: the game stops there,
    /// and the card takes no effect.
    pub open spec fn played(self, card: Card, bound_color: Option<Color>, after: Table) -> bool {
        let laid = self.laid(card, bound_color);
        if laid.hands[laid.current].len() == 0 {
            after == laid
        } else {
            laid.resolved(card.card_type, after)
        }
    }

    /// How many cards playing `card` makes the next player draw: none if the
    /// play is turned down or wins the game.
    pub open spec fn draws_due(self, card: Card, bound_color: Option<Color>) -> nat {
        if self.verdict(card, bound_color) is Ok && self.hands[self.current].len() > 1 {
            penalty(card.card_type)
        } else {
            0
        }
    }

    /// Whether the current player can take `action`. A card can be played
    /// that is in the player's hand, as long as the cards that it makes the
    /// next player draw are there to draw. A card can be drawn while the game
    /// is not won and a card is left to draw.
    pub open spec fn ready(self, action: Action) -> bool {
        match action {
            Action::Play(card, _) => {
                &&& self.hands[self.current].contains(card.unbound())
                &&& self.draws_due(card.unbound(), chosen_color(card)) <= self.stock() + 1
            },
            Action::Draw => self.winner() is None && self.stock() >= 1,
        }
    }

    /// `after` is this table once the current player has drawn a card in
    /// place of playing one: the card is in their hand and the turn has
    /// passed on.
    pub open spec fn drew(self, after: Table) -> bool {
        &&& self.draws(self.current, 1, Table { current: self.current, ..after })
        &&& after.current == self.next_seat()
    }
}

/// What a deck in a given order is dealt into for `count` players, or `None`
/// where no game can be set up from it.
///
/// The players are served in seating order, each with the top seven cards of
/// what is left. Then cards are turned over from the top of the rest onto the
/// discard pile until one comes that has a color of its own: that is the
/// first active card. The wild cards turned over before it lie under it.
/// There is no game to set up without a player, with fewer than seven cards
/// for each, or with nothing but wild cards left after dealing.
pub open spec fn dealt(count: int, deck: Seq<Card>) -> Option<Table> {
    let rest = deck.take(deck.len() - 7 * count);
    if 1 <= count && 7 * count <= deck.len() && top_colored(rest) >= 0 {
        Some(
            Table {
                turn_order: TurnOrder::Normal,
                current: 0,
                hands: Seq::new(
                    count as nat,
                    |p: int| off_top(deck.take(deck.len() - 7 * p), 7),
                ),
                draw: rest.take(top_colored(rest)),
                discard: off_top(rest, (rest.len() - top_colored(rest)) as nat),
            },
        )
    } else {
        None
    }
}

} // verus!
