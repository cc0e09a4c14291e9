//! The players: their hands in seating order, whose turn it is, and the
//! direction in which the turn passes.

use crate::cards::Card;
use vstd::arithmetic::div_mod::lemma_fundamental_div_mod_converse;
use vstd::prelude::*;

verus! {

/// The direction in which the turn passes from player to player.
#[derive(Clone, Copy, Debug, PartialEq, Eq, Structural)]
pub enum TurnOrder {
    /// In seating order.
    Normal,
    /// Against seating order.
    Reverse,
}

impl TurnOrder {
    /// The opposite direction.
    pub open spec fn flipped(self) -> TurnOrder {
        match self {
            TurnOrder::Normal => TurnOrder::Reverse,
            TurnOrder::Reverse => TurnOrder::Normal,
        }
    }

    /// The seat that the turn passes to from seat `from` at a table of
    /// `count` players: one up in normal order, one down in reverse order,
    /// going round at either end.
    pub open spec fn step(self, from: int, count: int) -> int {
        match self {
            TurnOrder::Normal => (from + 1) % count,
            TurnOrder::Reverse => (from + count - 1) % count,
        }
    }

    /// Executable form of [`TurnOrder::flipped`].
    pub fn flip(&self) -> (t: TurnOrder)
        ensures
            t == self.flipped(),
    {
        match self {
            TurnOrder::Normal => TurnOrder::Reverse,
            TurnOrder::Reverse => TurnOrder::Normal,
        }
    }
}

/// Reversing the direction twice restores it.
pub proof fn lemma_flip_twice(order: TurnOrder)
    ensures
        order.flipped().flipped() == order,
{
}

/// A step without modular arithmetic: up from the last seat comes the first,
/// down from the first comes the last, and the result is a seat again.
pub proof fn lemma_step(order: TurnOrder, from: int, count: int)
    requires
        0 <= from < count,
    ensures
        0 <= order.step(from, count) < count,
        TurnOrder::Normal.step(from, count) == if from + 1 == count {
            0
        } else {
            from + 1
        },
        TurnOrder::Reverse.step(from, count) == if from == 0 {
            count - 1
        } else {
            from - 1
        },
{
    if from + 1 == count {
    } else {
        lemma_fundamental_div_mod_converse(from + 1, count, 0, from + 1);
    }
    if from == 0 {
        lemma_fundamental_div_mod_converse(from + count - 1, count, 0, count - 1);
    } else {
        lemma_fundamental_div_mod_converse(from + count - 1, count, 1, from - 1);
    }
}

/// A step in one direction is undone by a step in the other, so that two
/// players who reverse one after the other hand the turn back to the first.
pub proof fn lemma_step_back(order: TurnOrder, from: int, count: int)
    requires
        0 <= from < count,
    ensures
        0 <= order.step(from, count) < count,
        order.flipped().step(order.step(from, count), count) == from,
{
    lemma_step(order, from, count);
    lemma_step(order.flipped(), order.step(from, count), count);
}

/// Holds each player's hand and the index of the player whose turn it is.
/// A hand is a bag of cards: the order in which it lists them carries no
/// meaning, and a card may occur in it more than once.
#[derive(Clone, Debug, PartialEq, Eq)]
pub struct Players {
    pub current_player: usize,
    players: Vec<Vec<Card>>,
}

impl Players {
    /// The index of the player whose turn it is.
    pub closed spec fn current(&self) -> int {
        self.current_player as int
    }

    /// The hands, in seating order.
    pub closed spec fn hands(&self) -> Seq<Seq<Card>> {
        self.players@.map_values(|hand: Vec<Card>| hand@)
    }

    /// There is at least one player, and the current player is one of them.
    pub open spec fn wf(&self) -> bool {
        0 <= self.current() < self.hands().len()
    }

    /// `num_players` empty hands, with the first player to move.
    pub fn new(num_players: usize) -> (players: Players)
        ensures
            players.current() == 0,
            players.hands() == Seq::new(num_players as nat, |i: int| Seq::<Card>::empty()),
    {
        let mut hands: Vec<Vec<Card>> = Vec::new();
        let mut i: usize = 0;
        while i < num_players
            invariant
                i <= num_players,
                hands@.len() == i,
                forall|j: int| 0 <= j < i ==> (#[trigger] hands@[j])@ == Seq::<Card>::empty(),
            decreases num_players - i,
        {
            hands.push(Vec::new());
            i += 1;
        }
        let players = Players { players: hands, current_player: 0 };
        players
    }

    /// The number of players.
    pub fn count(&self) -> (n: usize)
        ensures
            n == self.hands().len(),
    {
        self.players.len()
    }

    /// The index of the player whose turn it is.
    pub fn current_index(&self) -> (i: usize)
        ensures
            i == self.current(),
    {
        self.current_player
    }

    /// The hand of the player at `index`.
    pub fn hand(&self, index: usize) -> (hand: &Vec<Card>)
        requires
            index < self.hands().len(),
        ensures
            hand@ == self.hands()[index as int],
    {
        &self.players[index]
    }

    /// The hand of the player at `index`, to be changed in place.
    pub fn get_hand(&mut self, index: usize) -> (hand: &mut Vec<Card>)
        requires
            index < old(self).hands().len(),
        ensures
            hand@ == old(self).hands()[index as int],
            final(self).hands() == old(self).hands().update(index as int, final(hand)@),
            final(self).current() == old(self).current(),
    {
        &mut self.players[index]
    }

    /// The current player's hand.
    pub fn get_current_player(&self) -> (hand: &Vec<Card>)
        requires
            self.wf(),
        ensures
            hand@ == self.hands()[self.current()],
    {
        &self.players[self.current_player]
    }

    /// The current player's hand, to be changed in place.
    pub fn get_current_player_mut(&mut self) -> (hand: &mut Vec<Card>)
        requires
            old(self).wf(),
        ensures
            hand@ == old(self).hands()[old(self).current()],
            final(self).hands() == old(self).hands().update(old(self).current(), final(hand)@),
            final(self).current() == old(self).current(),
    {
        &mut self.players[self.current_player]
    }

    /// The card at `index` in the current player's hand, if the hand has
    /// that many cards.
    pub fn get_from_current_player(&self, index: usize) -> (card: Option<&Card>)
        requires
            self.wf(),
        ensures
            match card {
                Some(c) => index < self.hands()[self.current()].len() && *c
                    == self.hands()[self.current()][index as int],
                None => index >= self.hands()[self.current()].len(),
            },
    {
        let hand = self.get_current_player();
        if index < hand.len() {
            Some(&hand[index])
        } else {
            None
        }
    }

    /// The card at `index` in the current player's hand, to be changed in
    /// place, if the hand has that many cards.
    pub fn get_from_current_player_mut(&mut self, index: usize) -> (card: Option<&mut Card>)
        requires
            old(self).wf(),
        ensures
            final(self).current() == old(self).current(),
            match card {
                Some(c) => {
                    let cur = old(self).current();
                    let hand = old(self).hands()[cur];
                    &&& index < hand.len()
                    &&& *c == hand[index as int]
                    &&& final(self).hands() == old(self).hands().update(
                        cur,
                        hand.update(index as int, *final(c)),
                    )
                },
                None => {
                    &&& index >= old(self).hands()[old(self).current()].len()
                    &&& final(self).hands() == old(self).hands()
                },
            },
    {
        let cur = self.current_player;
        if index < self.players[cur].len() {
            Some(&mut self.players[cur][index])
        } else {
            None
        }
    }

    /// Passes the turn to the next player in seating order; after the last
    /// player comes the first.
    pub fn next_player(&mut self)
        requires
            old(self).wf(),
        ensures
            final(self).hands() == old(self).hands(),
            final(self).current() == TurnOrder::Normal.step(
                old(self).current(),
                old(self).hands().len() as int,
            ),
            final(self).wf(),
    {
        let count = self.players.len();
        self.current_player = (self.current_player + 1) % count
    }

    /// Passes the turn to the previous player in seating order; before the
    /// first player comes the last.
    pub fn previous_player(&mut self)
        requires
            old(self).wf(),
        ensures
            final(self).hands() == old(self).hands(),
            final(self).current() == TurnOrder::Reverse.step(
                old(self).current(),
                old(self).hands().len() as int,
            ),
            final(self).wf(),
    {
        proof {
            lemma_step(TurnOrder::Reverse, self.current(), self.hands().len() as int);
        }
        if self.current_player == 0 {
            self.current_player = self.players.len() - 1;
        } else {
            self.current_player = self.current_player - 1;
        }
    }
}

} // verus!
