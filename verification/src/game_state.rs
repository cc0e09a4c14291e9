//! The game itself: the two piles, the players and the direction of play,
//! and the two actions that move a game on, playing a card and drawing one.

use crate::cards::{Card, CardType, Color};
use crate::deck::{get_deck, is_standard, lemma_deck_composition, standard_bag, DECK_SIZE};
use crate::laws::{
    lemma_census_len, lemma_colored_among, lemma_dealt_game, lemma_drawn_step,
    lemma_drew_keeps_game, lemma_first_index, lemma_hands_bag_take, lemma_pile_top,
    lemma_played_keeps_game, lemma_top_colored,
};
use crate::legality::playable;
pub use crate::legality::playable_card;
pub use crate::players::{Players, TurnOrder};
use crate::table::{
    chosen_color, dealt, drawn, first_index, hands_bag, off_top, top_colored, unbound_all,
    Rejected, Table, STARTING_HAND_SIZE,
};
use rand::Rng;
use vstd::prelude::*;
use vstd::seq_lib::{lemma_multiset_commutative, to_multiset_build};

verus! {

/// What a player does with a turn.
#[derive(Clone, Copy, Debug, PartialEq, Eq)]
pub enum Action {
    /// Play a card: the card, and its place in the player's hand as the
    /// player named it. A wild card comes with the color chosen for it.
    Play(Card, usize),
    /// Draw a card in place of playing one.
    Draw,
}

/// Everything that makes up a game: the players with their hands and the
/// player whose turn it is, the direction of play, the pile to draw from and
/// the pile to play onto. A player with no cards left has won.
///
/// A game is only to be had from [`GameState::new`], [`GameState::deal`] and
/// [`GameState::from_parts`], and is changed by [`GameState::play_card`] and
/// [`GameState::draw_card`] alone. All of them keep the invariant
/// [`Table::wf`], so that every game that there is satisfies it.
#[derive(Clone, Debug, PartialEq, Eq)]
pub struct GameState {
    turn_order: TurnOrder,
    players: Players,
    draw_deck: Vec<Card>,
    play_deck: Vec<Card>,
}

impl View for GameState {
    type V = Table;

    closed spec fn view(&self) -> Table {
        assembled(self.turn_order, self.players, self.draw_deck@, self.play_deck@)
    }
}

/// The table that the parts of a game make up.
pub open spec fn assembled(
    turn_order: TurnOrder,
    players: Players,
    draw_deck: Seq<Card>,
    play_deck: Seq<Card>,
) -> Table {
    Table {
        turn_order: turn_order,
        current: players.current(),
        hands: players.hands(),
        draw: draw_deck,
        discard: play_deck,
    }
}

/// Shuffles `cards` in place with `rand`'s thread-local generator:
/// `Rng::shuffle` on `thread_rng()`. That function does nothing to the slice
/// but swap its elements, so the cards afterwards are the cards before. In
/// which order they come is left open. `thread_rng` gives up, with a panic,
/// on a system that has no source of entropy.
#[verifier::external_body]
fn shuffle_cards(cards: &mut Vec<Card>)
    ensures
        final(cards)@.to_multiset() == old(cards)@.to_multiset(),
{
    rand::thread_rng().shuffle(cards.as_mut_slice());
}

/// The color choice that comes with the card of an action.
fn chosen(card: &Card) -> (color: Option<Color>)
    ensures
        color == chosen_color(*card),
{
    if card.card_type.wild() {
        Some(card.active_color())
    } else {
        None
    }
}

/// The place of the first occurrence of `card` in `hand`.
fn position(hand: &Vec<Card>, card: &Card) -> (at: usize)
    requires
        hand@.contains(*card),
    ensures
        at == first_index(hand@, *card),
        at < hand@.len(),
        hand@[at as int] == *card,
{
    let mut at: usize = 0;
    while at < hand.len() && hand[at] != *card
        invariant
            at <= hand@.len(),
            hand@.contains(*card),
            forall|j: int| 0 <= j < at ==> hand@[j] != *card,
        decreases hand@.len() - at,
    {
        at += 1;
    }
    proof {
        lemma_first_index(hand@, *card, at as int);
    }
    at
}

/// Whether one of the first `len` cards of `deck` has a color of its own.
fn has_colored(deck: &Vec<Card>, len: usize) -> (found: bool)
    requires
        len <= deck@.len(),
    ensures
        found == (top_colored(deck@.take(len as int)) >= 0),
{
    let mut i: usize = 0;
    while i < len
        invariant
            i <= len <= deck@.len(),
            forall|j: int| 0 <= j < i ==> deck@[j].color == Color::Any,
        decreases len - i,
    {
        if deck[i].color != Color::Any {
            proof {
                lemma_top_colored(deck@.take(len as int));
                assert(deck@.take(len as int)[i as int] == deck@[i as int]);
            }
            return true;
        }
        i += 1;
    }
    proof {
        lemma_top_colored(deck@.take(len as int));
    }
    false
}

impl GameState {
    /// Sets up a game for `num_players` players: a fresh deck is shuffled
    /// and dealt as [`GameState::deal`] deals it.
    ///
    /// With one to fourteen players there is always a game. With fifteen, it
    /// depends on the shuffle whether a colored card is left to turn over.
    /// With none, or with sixteen and more, there is none.
    pub fn new(num_players: usize) -> (res: Option<GameState>)
        ensures
            exists|deck: Seq<Card>|
                deck.to_multiset() == standard_bag() && match res {
                    Some(game) => #[trigger] dealt(num_players as int, deck) == Some(game@),
                    None => dealt(num_players as int, deck) is None,
                },
            1 <= num_players <= 14 ==> res is Some,
            num_players == 0 || num_players >= 16 ==> res is None,
            res matches Some(game) ==> game@.wf() && game@.card_count() == 108,
    {
        let mut deck: Vec<Card> = get_deck();
        shuffle_cards(&mut deck);
        proof {
            lemma_deck_composition();
            deck@.to_multiset_ensures();
            if 1 <= num_players <= 14 {
                lemma_colored_among(deck@, 108 - 7 * num_players);
            }
        }
        GameState::deal(num_players, deck)
    }

    /// Sets up a game for `num_players` players from a full deck in the
    /// order given: the top of the deck is its last card. Each player in turn
    /// is dealt seven cards, and the first active card is turned over.
    ///
    /// There is no game, and `None` is returned, if `deck` is not a full
    /// deck, if there is no player or not seven cards for each, or if only
    /// wild cards are left to turn over.
    pub fn deal(num_players: usize, deck: Vec<Card>) -> (res: Option<GameState>)
        ensures
            match res {
                Some(game) => {
                    &&& deck@.to_multiset() == standard_bag()
                    &&& dealt(num_players as int, deck@) == Some(game@)
                    &&& game@.wf()
                    &&& game@.card_count() == 108
                },
                None => deck@.to_multiset() != standard_bag() || dealt(num_players as int, deck@)
                    is None,
            },
    {
        if !is_standard(&deck) {
            return None;
        }
        proof {
            lemma_deck_composition();
            deck@.to_multiset_ensures();
        }
        if num_players == 0 || num_players > 15 {
            return None;
        }
        let rest_len: usize = DECK_SIZE - STARTING_HAND_SIZE * num_players;
        if !has_colored(&deck, rest_len) {
            return None;
        }
        let ghost cards = deck@;
        let mut game = GameState {
            turn_order: TurnOrder::Normal,
            play_deck: Vec::new(),
            draw_deck: deck,
            players: Players::new(num_players),
        };
        let mut i: usize = 0;
        while i < num_players
            invariant
                1 <= num_players <= 15,
                i <= num_players,
                cards.len() == 108,
                game@.turn_order == TurnOrder::Normal,
                game@.current == 0,
                game@.discard.len() == 0,
                game@.hands.len() == num_players,
                game@.draw == cards.take(108 - 7 * i),
                forall|p: int|
                    0 <= p < i ==> #[trigger] game@.hands[p] == off_top(
                        cards.take(108 - 7 * p),
                        7,
                    ),
                forall|p: int| i <= p < num_players ==> (#[trigger] game@.hands[p]).len() == 0,
            decreases num_players - i,
        {
            let mut j: usize = 0;
            while j < STARTING_HAND_SIZE
                invariant
                    1 <= num_players <= 15,
                    i < num_players,
                    j <= 7,
                    cards.len() == 108,
                    game@.turn_order == TurnOrder::Normal,
                    game@.current == 0,
                    game@.discard.len() == 0,
                    game@.hands.len() == num_players,
                    game@.draw == cards.take(108 - 7 * i - j),
                    forall|p: int|
                        0 <= p < i ==> #[trigger] game@.hands[p] == off_top(
                            cards.take(108 - 7 * p),
                            7,
                        ),
                    game@.hands[i as int] == off_top(cards.take(108 - 7 * i), j as nat),
                    forall|p: int| i < p < num_players ==> (#[trigger] game@.hands[p]).len() == 0,
                decreases 7 - j,
            {
                let ghost before = game@;
                let card: Card = game.pop_draw_deck();
                assert(card == off_top(before.draw, 1)[0]);
                game.players.get_hand(i).push(card);
                j += 1;
            }
            i += 1;
        }
        game.deal_first_play_card();
        proof {
            assert(game@.hands =~= Seq::new(
                num_players as nat,
                |p: int| off_top(cards.take(108 - 7 * p), 7),
            ));
            lemma_dealt_game(num_players as int, cards);
        }
        Some(game)
    }

    /// Puts a game together from its parts, if they make up a game: see
    /// [`Table::wf`] for what is asked of them. This is how a position is
    /// set up that did not come about by play.
    pub fn from_parts(
        turn_order: TurnOrder,
        players: Players,
        draw_deck: Vec<Card>,
        play_deck: Vec<Card>,
    ) -> (res: Option<GameState>)
        ensures
            match res {
                Some(game) => game@ == assembled(turn_order, players, draw_deck@, play_deck@)
                    && game@.wf(),
                None => !assembled(turn_order, players, draw_deck@, play_deck@).wf(),
            },
    {
        let ghost table = assembled(turn_order, players, draw_deck@, play_deck@);
        let count: usize = players.count();
        let current: usize = players.current_index();
        if current >= count || play_deck.len() == 0 {
            return None;
        }
        if play_deck[play_deck.len() - 1].active_color() == Color::Any {
            return None;
        }
        // The cards of the game, gathered to be counted.
        let mut all: Vec<Card> = Vec::new();
        let mut i: usize = 0;
        while i < draw_deck.len()
            invariant
                i <= draw_deck@.len(),
                all@ == draw_deck@.take(i as int),
            decreases draw_deck@.len() - i,
        {
            all.push(draw_deck[i]);
            i += 1;
        }
        let mut i: usize = 0;
        while i < play_deck.len()
            invariant
                i <= play_deck@.len(),
                play_deck@ == table.discard,
                all@ == table.draw + unbound_all(table.discard.take(i as int)),
            decreases play_deck@.len() - i,
        {
            all.push(play_deck[i].unbind());
            i += 1;
        }
        proof {
            assert(table.discard.take(table.discard.len() as int) =~= table.discard);
            lemma_multiset_commutative(table.draw, unbound_all(table.discard));
        }
        let mut seat: usize = 0;
        while seat < count
            invariant
                seat <= count,
                table == assembled(turn_order, players, draw_deck@, play_deck@),
                count == table.hands.len(),
                current == table.current,
                all@.to_multiset() == table.draw.to_multiset().add(
                    unbound_all(table.discard).to_multiset(),
                ).add(hands_bag(table.hands.take(seat as int))),
                forall|p: int|
                    0 <= p < seat && p != current ==> (#[trigger] table.hands[p]).len() > 0,
            decreases count - seat,
        {
            let hand: &Vec<Card> = players.hand(seat);
            if seat != current && hand.len() == 0 {
                return None;
            }
            let ghost base = all@;
            let mut k: usize = 0;
            while k < hand.len()
                invariant
                    k <= hand@.len(),
                    all@ == base + hand@.take(k as int),
                decreases hand@.len() - k,
            {
                all.push(hand[k]);
                k += 1;
            }
            proof {
                assert(hand@.take(hand@.len() as int) =~= hand@);
                lemma_multiset_commutative(base, hand@);
                lemma_hands_bag_take(table.hands, seat as int);
            }
            seat += 1;
        }
        assert(table.hands.take(count as int) =~= table.hands);
        if !is_standard(&all) {
            return None;
        }
        Some(
            GameState {
                turn_order: turn_order,
                players: players,
                draw_deck: draw_deck,
                play_deck: play_deck,
            },
        )
    }

    /// Takes a game apart into the direction of play, the players, the draw
    /// pile and the discard pile: what [`GameState::from_parts`] puts
    /// together.
    pub fn into_parts(self) -> (parts: (TurnOrder, Players, Vec<Card>, Vec<Card>))
        ensures
            assembled(parts.0, parts.1, parts.2@, parts.3@) == self@,
    {
        (self.turn_order, self.players, self.draw_deck, self.play_deck)
    }

    /// The direction of play.
    pub fn turn_order(&self) -> (order: TurnOrder)
        ensures
            order == self@.turn_order,
    {
        self.turn_order
    }

    /// The players and their hands.
    pub fn players(&self) -> (players: &Players)
        ensures
            players.current() == self@.current,
            players.hands() == self@.hands,
    {
        &self.players
    }

    /// The number of players.
    pub fn num_players(&self) -> (count: usize)
        ensures
            count == self@.hands.len(),
    {
        self.players.count()
    }

    /// The index of the player whose turn it is.
    pub fn current_player_index(&self) -> (index: usize)
        ensures
            index == self@.current,
    {
        self.players.current_index()
    }

    /// The hand of the player at `index`.
    pub fn hand_of(&self, index: usize) -> (hand: &Vec<Card>)
        requires
            index < self@.hands.len(),
        ensures
            hand@ == self@.hands[index as int],
    {
        self.players.hand(index)
    }

    /// The active card: the top card of the pile that is played onto.
    pub fn top_card(&self) -> (card: &Card)
        requires
            self@.discard.len() > 0,
        ensures
            *card == self@.active(),
    {
        &self.play_deck[self.play_deck.len() - 1]
    }

    /// The winner, once there is one: the player who has laid down their
    /// last card. Until then every player holds cards.
    pub fn winner(&self) -> (winner: Option<usize>)
        requires
            self@.wf(),
        ensures
            match winner {
                Some(index) => self@.winner() == Some(index as int) && self@.hands[index as int].len()
                    == 0,
                None => self@.winner() is None && forall|p: int|
                    0 <= p < self@.hands.len() ==> (#[trigger] self@.hands[p]).len() > 0,
            },
    {
        if self.players.get_current_player().len() == 0 {
            Some(self.players.current_index())
        } else {
            None
        }
    }

    /// The number of cards that can still be drawn: the draw pile and what
    /// lies under the active card.
    pub fn stock(&self) -> (cards: usize)
        requires
            self@.wf(),
        ensures
            cards == self@.stock(),
            cards <= 107,
    {
        proof {
            lemma_census_len(self@);
        }
        self.draw_deck.len() + (self.play_deck.len() - 1)
    }

    /// Whether the current player may play `card` onto the active card.
    pub fn is_card_playable(&self, card: &Card) -> (b: bool)
        requires
            self@.discard.len() > 0,
        ensures
            b == playable(*card, self@.active()),
    {
        playable_card(card, self.top_card())
    }

    /// Whether the current player can go on to play `card`: whether it is in
    /// their hand and the cards that the play would make the next player
    /// draw are there to draw. This is what [`GameState::play_card`] asks of
    /// its caller.
    pub fn can_play(&self, card: &Card, bound_color: Option<Color>) -> (ready: bool)
        requires
            self@.wf(),
        ensures
            ready == (self@.hands[self@.current].contains(*card) && self@.draws_due(
                *card,
                bound_color,
            ) <= self@.stock() + 1),
    {
        let hand: &Vec<Card> = self.players.get_current_player();
        let mut at: usize = 0;
        while at < hand.len() && hand[at] != *card
            invariant
                at <= hand@.len(),
                forall|j: int| 0 <= j < at ==> hand@[j] != *card,
            decreases hand@.len() - at,
        {
            at += 1;
        }
        if at == hand.len() {
            return false;
        }
        if !playable_card(card, self.top_card()) || hand.len() <= 1 {
            return true;
        }
        let due: usize = match card.card_type {
            CardType::Number(_) => 0,
            CardType::Reverse => 0,
            CardType::Skip => 0,
            CardType::Plus2 => 2,
            CardType::Wild(_) => 0,
            CardType::WildPlus4(_) => {
                match bound_color {
                    Some(color) => if color == Color::Any {
                        0
                    } else {
                        4
                    },
                    None => 0,
                }
            },
        };
        due <= self.stock() + 1
    }

    /// Whether the current player can take `action`: what
    /// [`GameState::take_turn`] asks of its caller.
    pub fn ready(&self, action: &Action) -> (ready: bool)
        requires
            self@.wf(),
        ensures
            ready == self@.ready(*action),
    {
        match action {
            Action::Play(card, _) => self.can_play(&card.unbind(), chosen(card)),
            Action::Draw => {
                self.players.get_current_player().len() > 0 && self.stock() >= 1
            },
        }
    }

    /// The current player takes their turn: they play the card that the
    /// action names, as [`GameState::play_card`] plays it, or draw one, as
    /// [`GameState::draw_card`] draws it. A play that is turned down leaves
    /// the game as it was. The card that was drawn is handed back.
    pub fn take_turn(&mut self, action: &Action) -> (res: Result<Option<Card>, Rejected>)
        requires
            old(self)@.wf(),
            old(self)@.ready(*action),
        ensures
            match *action {
                Action::Play(card, _) => {
                    &&& res == match old(self)@.verdict(card.unbound(), chosen_color(card)) {
                        Ok(_) => Ok::<Option<Card>, Rejected>(None),
                        Err(reason) => Err(reason),
                    }
                    &&& res is Err ==> final(self)@ == old(self)@
                    &&& res is Ok ==> old(self)@.played(
                        card.unbound(),
                        chosen_color(card),
                        final(self)@,
                    )
                },
                Action::Draw => {
                    &&& res matches Ok(Some(card))
                    &&& old(self)@.drew(final(self)@)
                    &&& final(self)@.hands[old(self)@.current].last() == card
                },
            },
            final(self)@.wf(),
            final(self)@.card_count() == 108,
    {
        match action {
            Action::Play(card, _) => {
                match self.play_card(&card.unbind(), chosen(card)) {
                    Ok(_) => Ok(None),
                    Err(reason) => Err(reason),
                }
            },
            Action::Draw => Ok(Some(self.draw_card())),
        }
    }

    /// The current player plays `card` from their hand, with the color
    /// chosen for it if it is a wild card.
    ///
    /// The play is turned down, and nothing changes, if the card does not go
    /// on the active card, or if it is wild and `bound_color` is not one of
    /// the four playable colors. Otherwise the card leaves the hand and
    /// becomes the active card, a wild card with its chosen color. If that
    /// was the player's last card, the game is won and stops there. If not,
    /// the card takes effect and the turn passes on.
    ///
    /// The card has to be in the hand, and the cards that the play makes the
    /// next player draw have to be there to draw: [`GameState::can_play`]
    /// tells.
    pub fn play_card(&mut self, card: &Card, bound_color: Option<Color>) -> (res: Result<
        (),
        Rejected,
    >)
        requires
            old(self)@.wf(),
            old(self)@.hands[old(self)@.current].contains(*card),
            old(self)@.draws_due(*card, bound_color) <= old(self)@.stock() + 1,
        ensures
            res == old(self)@.verdict(*card, bound_color),
            res is Err ==> final(self)@ == old(self)@,
            res is Ok ==> old(self)@.played(*card, bound_color, final(self)@),
            res is Ok && old(self)@.hands[old(self)@.current].len() == 1 ==> final(self)@.winner()
                == Some(old(self)@.current),
            final(self)@.wf(),
            final(self)@.card_count() == 108,
    {
        proof {
            lemma_census_len(self@);
        }
        if !playable_card(card, self.top_card()) {
            return Err(Rejected::NotPlayable);
        }
        let placed: Card = if card.card_type.wild() {
            match bound_color {
                Some(color) => {
                    if color == Color::Any {
                        return Err(Rejected::MissingColorChoice);
                    }
                    card.bind(color)
                },
                None => {
                    return Err(Rejected::MissingColorChoice);
                },
            }
        } else {
            *card
        };
        let at: usize = position(self.players.get_current_player(), card);
        self.players.get_current_player_mut().remove(at);
        self.play_deck.push(placed);
        if self.players.get_current_player().len() > 0 {
            match card.card_type {
                CardType::Number(_) => self.next_player(),
                CardType::Reverse => self.reverse(),
                CardType::Skip => self.skip(),
                CardType::Plus2 => self.plus_n(2),
                CardType::Wild(_) => self.next_player(),
                CardType::WildPlus4(_) => self.plus_n(4),
            }
        }
        proof {
            lemma_played_keeps_game(old(self)@, *card, bound_color, self@);
            lemma_census_len(self@);
        }
        Ok(())
    }

    /// The current player draws a card in place of playing one. The card
    /// goes into their hand, the turn passes on, and the card is handed back
    /// to be shown. If the draw pile is used up, the discard pile is recycled
    /// into it first.
    ///
    /// No card is drawn once the game is won, and none can be drawn when the
    /// players hold every card but the active one.
    pub fn draw_card(&mut self) -> (card: Card)
        requires
            old(self)@.wf(),
            old(self)@.winner() is None,
            old(self)@.stock() >= 1,
        ensures
            old(self)@.drew(final(self)@),
            final(self)@.hands[old(self)@.current].last() == card,
            final(self)@.wf(),
            final(self)@.card_count() == 108,
    {
        let card: Card = self.pop_draw_deck();
        let ghost hand = self@.hands[self@.current];
        self.players.get_current_player_mut().push(card);
        proof {
            assert(self@.hands[self@.current].skip(hand.len() as int) =~= seq![card]);
            assert(hand.push(card) =~= hand + seq![card]);
        }
        self.next_player();
        proof {
            lemma_drew_keeps_game(old(self)@, self@);
            lemma_census_len(self@);
        }
        card
    }

    /// Passes the turn on, forwards or backwards as the direction of play
    /// says.
    fn next_player(&mut self)
        requires
            old(self)@.seated(),
        ensures
            final(self)@ == old(self)@.advanced(),
            final(self)@.seated(),
    {
        match self.turn_order {
            TurnOrder::Normal => self.players.next_player(),
            TurnOrder::Reverse => self.players.previous_player(),
        }
    }

    /// The effect of a Reverse: the direction of play turns round, and the
    /// turn passes on in the new direction.
    fn reverse(&mut self)
        requires
            old(self)@.seated(),
        ensures
            final(self)@ == old(self)@.reversed().advanced(),
    {
        match self.turn_order {
            TurnOrder::Normal => self.turn_order = TurnOrder::Reverse,
            TurnOrder::Reverse => self.turn_order = TurnOrder::Normal,
        }
        self.next_player();
    }

    /// The effect of a Skip: the turn passes over the next player.
    fn skip(&mut self)
        requires
            old(self)@.seated(),
        ensures
            final(self)@ == old(self)@.advanced().advanced(),
    {
        self.next_player();
        self.next_player();
    }

    /// The effect of a Plus2 or a WildPlus4: the turn passes to the next
    /// player, who draws `num_cards` cards and loses the turn to the player
    /// after.
    fn plus_n(&mut self, num_cards: usize)
        requires
            old(self)@.seated(),
            old(self)@.discard.len() > 0,
            num_cards <= old(self)@.stock(),
        ensures
            old(self)@.penalized(num_cards as nat, final(self)@),
    {
        self.next_player();
        let ghost mid = self@;
        let mut cards: Vec<Card> = Vec::new();
        let mut i: usize = 0;
        proof {
            assert(cards@ =~= off_top(mid.draw, 0));
            assert(self@.draw =~= mid.draw.take(mid.draw.len() - 0));
        }
        while i < num_cards
            invariant
                i <= num_cards,
                cards@.len() == i,
                self@.turn_order == mid.turn_order,
                self@.current == mid.current,
                self@.hands == mid.hands,
                drawn(mid.draw, mid.discard, cards@, self@.draw, self@.discard),
                mid.discard.len() > 0,
                num_cards <= mid.stock(),
            decreases num_cards - i,
        {
            proof {
                if i > mid.draw.len() {
                    (self@.draw + cards@.skip(mid.draw.len() as int)).to_multiset_ensures();
                    unbound_all(mid.discard.drop_last()).to_multiset_ensures();
                }
            }
            let ghost before = self@;
            let card: Card = self.pop_draw_deck();
            proof {
                lemma_drawn_step(
                    mid.draw,
                    mid.discard,
                    cards@,
                    before.draw,
                    before.discard,
                    card,
                    self@.draw,
                    self@.discard,
                );
            }
            cards.push(card);
            i += 1;
        }
        let ghost drawn_cards = cards@;
        let this_hand: &mut Vec<Card> = self.players.get_current_player_mut();
        this_hand.append(&mut cards);
        assert(self@.hands[mid.current].skip(mid.hands[mid.current].len() as int)
            =~= drawn_cards);
        self.next_player();
    }

    /// Takes the top card off the draw pile. If the draw pile is used up,
    /// the discard pile is recycled into it first.
    fn pop_draw_deck(&mut self) -> (card: Card)
        requires
            old(self)@.draw.len() > 0 || old(self)@.discard.len() > 1,
        ensures
            final(self)@.turn_order == old(self)@.turn_order,
            final(self)@.current == old(self)@.current,
            final(self)@.hands == old(self)@.hands,
            drawn(
                old(self)@.draw,
                old(self)@.discard,
                seq![card],
                final(self)@.draw,
                final(self)@.discard,
            ),
    {
        match self.draw_deck.pop() {
            Some(card) => {
                assert(seq![card] =~= off_top(old(self)@.draw, 1));
                card
            },
            None => {
                self.refill();
                proof {
                    unbound_all(old(self)@.discard.drop_last()).to_multiset_ensures();
                    self.draw_deck@.to_multiset_ensures();
                }
                let ghost pile = self.draw_deck@;
                let card: Card = self.draw_deck.pop().unwrap();
                proof {
                    assert(seq![card].take(0) =~= off_top(old(self)@.draw, 0));
                    assert(self.draw_deck@ + seq![card].skip(0) =~= pile);
                }
                card
            },
        }
    }

    /// Recycles the discard pile into the empty draw pile: every card but
    /// the active one goes over, its chosen color taken off, and the new draw
    /// pile is shuffled.
    fn refill(&mut self)
        requires
            old(self)@.draw.len() == 0,
            old(self)@.discard.len() > 0,
        ensures
            final(self)@.turn_order == old(self)@.turn_order,
            final(self)@.current == old(self)@.current,
            final(self)@.hands == old(self)@.hands,
            final(self)@.discard == seq![old(self)@.active()],
            final(self)@.draw.to_multiset() == unbound_all(
                old(self)@.discard.drop_last(),
            ).to_multiset(),
    {
        let ghost under = self.play_deck@.drop_last();
        let top: Card = self.play_deck.pop().unwrap();
        proof {
            self.draw_deck@.to_multiset_ensures();
        }
        while self.play_deck.len() > 0
            invariant
                self.turn_order == old(self).turn_order,
                self.players == old(self).players,
                self.draw_deck@.to_multiset().add(unbound_all(self.play_deck@).to_multiset())
                    == unbound_all(under).to_multiset(),
            decreases self.play_deck@.len(),
        {
            proof {
                lemma_pile_top(self.play_deck@);
            }
            let card: Card = self.play_deck.pop().unwrap();
            proof {
                to_multiset_build(self.draw_deck@, card.unbound());
            }
            self.draw_deck.push(card.unbind());
        }
        proof {
            unbound_all(self.play_deck@).to_multiset_ensures();
        }
        self.play_deck.push(top);
        self.shuffle();
    }

    /// Shuffles the draw pile.
    fn shuffle(&mut self)
        ensures
            final(self)@.draw.to_multiset() == old(self)@.draw.to_multiset(),
            final(self)@ == (Table { draw: final(self)@.draw, ..old(self)@ }),
    {
        shuffle_cards(&mut self.draw_deck);
    }

    /// Turns cards over from the draw pile onto the discard pile until one
    /// comes that has a color of its own, so that the active card is never a
    /// wild card without a color.
    fn deal_first_play_card(&mut self)
        requires
            top_colored(old(self)@.draw) >= 0,
        ensures
            final(self)@.turn_order == old(self)@.turn_order,
            final(self)@.current == old(self)@.current,
            final(self)@.hands == old(self)@.hands,
            final(self)@.draw == old(self)@.draw.take(top_colored(old(self)@.draw)),
            final(self)@.discard == old(self)@.discard + off_top(
                old(self)@.draw,
                (old(self)@.draw.len() - top_colored(old(self)@.draw)) as nat,
            ),
    {
        let ghost pile = self@.draw;
        let ghost under = self@.discard;
        let ghost at = top_colored(pile);
        proof {
            lemma_top_colored(pile);
        }
        loop
            invariant_except_break
                at < self@.draw.len(),
                self@.draw == pile.take(self@.draw.len() as int),
                self@.discard == under + off_top(pile, (pile.len() - self@.draw.len()) as nat),
            invariant
                0 <= at < pile.len(),
                pile[at].color != Color::Any,
                forall|i: int| at < i < pile.len() ==> pile[i].color == Color::Any,
                self@.draw.len() <= pile.len(),
                self@.turn_order == old(self)@.turn_order,
                self@.current == old(self)@.current,
                self@.hands == old(self)@.hands,
            ensures
                self@.draw == pile.take(at),
                self@.discard == under + off_top(pile, (pile.len() - at) as nat),
            decreases self@.draw.len(),
        {
            let ghost before = self@;
            let card: Card = self.pop_draw_deck();
            assert(card == off_top(before.draw, 1)[0]);
            self.play_deck.push(card);
            if self.top_card().color != Color::Any {
                break ;
            }
        }
    }
}

} // verus!
