//! What holds of every game: the laws of the model, and the lemmas that the
//! executable game state is proved with.

use crate::cards::{Card, CardType, Color};
use crate::deck::{copies, lemma_deck_composition, standard_bag};
use crate::players::lemma_step_back;
use crate::table::{
    binds, dealt, drawn, first_index, hands_bag, hands_total, off_top, penalty, top_colored,
    unbound_all, Rejected, Table,
};
use vstd::prelude::*;
use vstd::seq_lib::{lemma_multiset_commutative, to_multiset_build};

verus! {

/// Dealing a full deck sets up a game: what [`dealt`] gives satisfies the
/// invariant of a game.
pub proof fn lemma_dealt_game(count: int, deck: Seq<Card>)
    requires
        deck.to_multiset() == standard_bag(),
        dealt(count, deck) is Some,
    ensures
        dealt(count, deck)->0.wf(),
        dealt(count, deck)->0.card_count() == 108,
{
    let table = dealt(count, deck)->0;
    let rest = deck.take(deck.len() - 7 * count);
    let at = top_colored(rest);
    lemma_top_colored(rest);
    lemma_deck_composition();
    deck.to_multiset_ensures();
    assert forall|i: int| 0 <= i < deck.len() implies (#[trigger] deck[i]).loose() by {
        assert(standard_bag().count(deck[i]) == copies(deck[i]));
    }
    lemma_dealt_hands(count, deck, count);
    assert(table.hands.take(count) =~= table.hands);
    lemma_off_top(rest, (rest.len() - at) as nat);
    assert(unbound_all(table.discard) =~= table.discard) by {
        assert forall|i: int| 0 <= i < table.discard.len() implies unbound_all(table.discard)[i]
            == table.discard[i] by {
            assert(table.discard[i] == deck[rest.len() - 1 - i]);
        }
    }
    assert(table.census() =~= deck.to_multiset());
    lemma_census_len(table);
}

/// Playing a card that is accepted keeps a game a game.
pub proof fn lemma_played_keeps_game(
    before: Table,
    card: Card,
    bound_color: Option<Color>,
    after: Table,
)
    requires
        before.wf(),
        before.hands[before.current].contains(card),
        before.verdict(card, bound_color) is Ok,
        before.played(card, bound_color, after),
    ensures
        after.wf(),
{
    let laid = before.laid(card, bound_color);
    let count = before.hands.len() as int;
    lemma_laid_census(before, card, bound_color);
    assert forall|p: int| 0 <= p < count && p != before.current implies (#[trigger] laid.hands[p]).len()
        > 0 by {}
    if laid.hands[laid.current].len() > 0 {
        if penalty(card.card_type) > 0 {
            let target = laid.next_seat();
            let mid = Table { current: target, ..after };
            lemma_draws_census(laid.advanced(), target, penalty(card.card_type), mid);
            assert forall|p: int| 0 <= p < after.hands.len() implies (#[trigger] after.hands[p]).len()
                > 0 by {}
        }
    }
}

/// Drawing a card keeps a game a game.
pub proof fn lemma_drew_keeps_game(before: Table, after: Table)
    requires
        before.wf(),
        before.winner() is None,
        before.drew(after),
    ensures
        after.wf(),
{
    let mid = Table { current: before.current, ..after };
    lemma_draws_census(before, before.current, 1, mid);
    assert forall|p: int| 0 <= p < after.hands.len() implies (#[trigger] after.hands[p]).len()
        > 0 by {}
}

/// Conservation: a game holds 108 cards, the draw pile, the discard pile and
/// the hands taken together.
pub proof fn lemma_conservation(table: Table)
    requires
        table.wf(),
    ensures
        table.card_count() == 108,
{
    lemma_census_len(table);
}

/// Conservation: the number of cards in the game is the size of the bag that
/// they make up. In a game that holds one full deck it is 108.
pub proof fn lemma_census_len(table: Table)
    ensures
        table.census().len() == table.card_count(),
        table.census() == standard_bag() ==> table.card_count() == 108,
{
    table.draw.to_multiset_ensures();
    unbound_all(table.discard).to_multiset_ensures();
    lemma_hands_bag_len(table.hands);
    lemma_deck_composition();
}

/// Two players who play Reverse one after the other restore the direction of
/// play, and the turn is back with the first of them.
pub proof fn lemma_reverse_twice(table: Table)
    requires
        table.seated(),
    ensures
        table.reversed().reversed() == table,
        table.reversed().advanced().reversed().advanced() == table,
{
    lemma_step_back(table.turn_order.flipped(), table.current, table.hands.len() as int);
}

/// Refill: a card drawn when the draw pile is used up comes from under the
/// active card. What lay there is, chosen colors taken off, the card drawn
/// and the new draw pile; the active card is alone on the discard pile; and
/// the cards in the game, and their number, are what they were.
pub proof fn lemma_refill(before: Table, after: Table)
    requires
        before.seated(),
        before.discard.len() > 0,
        before.draw.len() == 0,
        before.drew(after),
    ensures
        after.discard == seq![before.active()],
        after.active() == before.active(),
        after.hands[before.current].drop_last() == before.hands[before.current],
        after.draw.push(after.hands[before.current].last()).to_multiset() == unbound_all(
            before.discard.drop_last(),
        ).to_multiset(),
        after.census() == before.census(),
        after.card_count() == before.card_count(),
{
    let seat = before.current;
    let hand = before.hands[seat];
    let cards = after.hands[seat].skip(hand.len() as int);
    assert(after.draw + cards.skip(0) =~= after.draw.push(cards[0]));
    lemma_draws_census(before, seat, 1, Table { current: seat, ..after });
    lemma_census_len(before);
    lemma_census_len(after);
}

/// Win detection: a player who plays their last card has won at once. The
/// card lies on the discard pile and takes no effect: nobody draws, the
/// direction stays, and the turn stays with the winner.
pub proof fn lemma_last_card_wins(
    before: Table,
    card: Card,
    bound_color: Option<Color>,
    after: Table,
)
    requires
        before.seated(),
        before.hands[before.current] == seq![card],
        before.played(card, bound_color, after),
    ensures
        after.winner() == Some(before.current),
        after.current == before.current,
        after.turn_order == before.turn_order,
        after.draw == before.draw,
        after.discard == before.discard.push(Table::placed(card, bound_color)),
        forall|p: int|
            0 <= p < before.hands.len() && p != before.current ==> after.hands[p]
                == before.hands[p],
{
}

/// A wild card needs a color: played without one of the four playable
/// colors chosen for it, it is turned down for that reason, whatever the
/// active card is.
pub proof fn lemma_wild_needs_color(table: Table, card: Card, bound_color: Option<Color>)
    requires
        card.valid(),
        card.card_type.is_wild(),
        !binds(bound_color),
    ensures
        table.verdict(card, bound_color) == Err::<(), Rejected>(Rejected::MissingColorChoice),
{
}

/// A deck has eight wild cards, so that among any nine of its cards there is
/// one with a color.
pub proof fn lemma_colored_among(deck: Seq<Card>, len: int)
    requires
        deck.to_multiset() == standard_bag(),
        9 <= len <= deck.len(),
    ensures
        top_colored(deck.take(len)) >= 0,
{
    let rest = deck.take(len);
    let wild = Card { color: Color::Any, card_type: CardType::Wild(Color::Any) };
    let wild4 = Card { color: Color::Any, card_type: CardType::WildPlus4(Color::Any) };
    lemma_top_colored(rest);
    if top_colored(rest) < 0 {
        lemma_deck_composition();
        deck.to_multiset_ensures();
        assert forall|i: int| 0 <= i < rest.len() implies rest[i] == wild || rest[i] == wild4 by {
            assert(standard_bag().count(deck[i]) == copies(deck[i]));
        }
        lemma_two_cards(rest, wild, wild4);
        assert(deck =~= rest + deck.skip(len));
        lemma_multiset_commutative(rest, deck.skip(len));
        assert(rest.to_multiset().count(wild) <= deck.to_multiset().count(wild));
        assert(rest.to_multiset().count(wild4) <= deck.to_multiset().count(wild4));
    }
}

/// Drawing goes card by card: if `cards` were drawn and then `card`, then
/// `cards` with `card` at the end were drawn.
pub proof fn lemma_drawn_step(
    draw: Seq<Card>,
    discard: Seq<Card>,
    cards: Seq<Card>,
    draw_mid: Seq<Card>,
    discard_mid: Seq<Card>,
    card: Card,
    draw_after: Seq<Card>,
    discard_after: Seq<Card>,
)
    requires
        drawn(draw, discard, cards, draw_mid, discard_mid),
        drawn(draw_mid, discard_mid, seq![card], draw_after, discard_after),
    ensures
        drawn(draw, discard, cards.push(card), draw_after, discard_after),
{
    let all = cards.push(card);
    let k = draw.len() as int;
    if cards.len() < draw.len() {
        assert(all =~= off_top(draw, all.len()));
        assert(draw_after =~= draw.take(draw.len() - all.len()));
    } else if cards.len() == draw.len() {
        assert(all.take(k) =~= cards);
        assert(all.skip(k) =~= seq![card]);
        assert(seq![card].skip(0) =~= seq![card]);
    } else {
        assert(all.take(k) =~= cards.take(k));
        if draw_mid.len() == 0 {
            assert(seq![card].skip(0) =~= seq![card]);
            (draw_after + seq![card]).to_multiset_ensures();
            unbound_all(discard_mid.drop_last()).to_multiset_ensures();
        } else {
            let rest = cards.skip(k);
            assert(card == off_top(draw_mid, 1)[0]);
            assert(draw_mid =~= draw_after.push(card));
            assert(draw_after + all.skip(k) =~= (draw_after + rest).push(card));
            to_multiset_build(draw_after + rest, card);
            lemma_multiset_commutative(draw_after, rest);
            lemma_multiset_commutative(draw_mid, rest);
            to_multiset_build(draw_after, card);
            assert((draw_after + all.skip(k)).to_multiset() =~= (draw_mid + rest).to_multiset());
        }
    }
}

/// Drawing moves cards and makes none: the two piles and the cards drawn
/// are together what the two piles were, chosen colors on the discard pile
/// not counted. The active card stays the active card.
pub proof fn lemma_drawn_census(
    draw: Seq<Card>,
    discard: Seq<Card>,
    cards: Seq<Card>,
    draw_after: Seq<Card>,
    discard_after: Seq<Card>,
)
    requires
        discard.len() > 0,
        drawn(draw, discard, cards, draw_after, discard_after),
    ensures
        draw_after.to_multiset().add(unbound_all(discard_after).to_multiset()).add(
            cards.to_multiset(),
        ) == draw.to_multiset().add(unbound_all(discard).to_multiset()),
        discard_after.len() > 0,
        discard_after.last() == discard.last(),
{
    let before = draw.to_multiset().add(unbound_all(discard).to_multiset());
    let after = draw_after.to_multiset().add(unbound_all(discard_after).to_multiset()).add(
        cards.to_multiset(),
    );
    if cards.len() <= draw.len() {
        lemma_off_top(draw, cards.len());
    } else {
        let k = draw.len() as int;
        lemma_off_top(draw, draw.len());
        assert(draw.take(0) =~= Seq::<Card>::empty());
        Seq::<Card>::empty().to_multiset_ensures();
        assert(cards =~= cards.take(k) + cards.skip(k));
        lemma_multiset_commutative(cards.take(k), cards.skip(k));
        lemma_multiset_commutative(draw_after, cards.skip(k));
        lemma_pile_top(discard);
        lemma_pile_top(discard_after);
        assert(unbound_all(discard_after.drop_last()) =~= Seq::<Card>::empty());
        assert forall|c: Card| after.count(c) == before.count(c) by {}
    }
}

/// Cards that a player draws stay in the game: whoever draws, and however
/// many cards, the cards in the game are what they were, and so is the
/// active card.
pub proof fn lemma_draws_census(before: Table, seat: int, n: nat, after: Table)
    requires
        0 <= seat < before.hands.len(),
        before.discard.len() > 0,
        before.draws(seat, n, after),
    ensures
        after.census() == before.census(),
        after.discard.len() > 0,
        after.active() == before.active(),
        after.hands.len() == before.hands.len(),
        forall|p: int| 0 <= p < before.hands.len() ==> after.hands[p].len() >= before.hands[p].len(),
{
    let cards = after.hands[seat].skip(before.hands[seat].len() as int);
    lemma_drawn_census(before.draw, before.discard, cards, after.draw, after.discard);
    let gained = Table { hands: after.hands, ..before };
    lemma_census_gain(before, seat, cards);
    assert forall|c: Card| after.census().count(c) == before.census().count(c) by {
        assert(gained.census().count(c) == before.census().add(cards.to_multiset()).count(c));
    }
}

/// The topmost colored card of a pile: it has a color, and every card above
/// it has none.
pub proof fn lemma_top_colored(pile: Seq<Card>)
    ensures
        -1 <= top_colored(pile) < pile.len(),
        top_colored(pile) >= 0 ==> pile[top_colored(pile)].color != Color::Any,
        forall|i: int| top_colored(pile) < i < pile.len() ==> pile[i].color == Color::Any,
    decreases pile.len(),
{
    if pile.len() > 0 && pile.last().color == Color::Any {
        let under = pile.drop_last();
        lemma_top_colored(under);
        assert forall|i: int| top_colored(pile) < i < pile.len() implies pile[i].color
            == Color::Any by {
            if i < under.len() {
                assert(under[i] == pile[i]);
            }
        }
    }
}

/// The first occurrence of a card is where the card is and was not before.
pub proof fn lemma_first_index(hand: Seq<Card>, card: Card, i: int)
    requires
        0 <= i < hand.len(),
        hand[i] == card,
        forall|j: int| 0 <= j < i ==> hand[j] != card,
    ensures
        first_index(hand, card) == i,
    decreases i,
{
    if i > 0 {
        let rest = hand.drop_first();
        assert forall|j: int| 0 <= j < i - 1 implies rest[j] != card by {}
        lemma_first_index(rest, card, i - 1);
    }
}

/// A pile is its top card and what lies under it.
pub proof fn lemma_pile_top(pile: Seq<Card>)
    requires
        pile.len() > 0,
    ensures
        pile.to_multiset() == pile.drop_last().to_multiset().insert(pile.last()),
        unbound_all(pile).to_multiset() == unbound_all(pile.drop_last()).to_multiset().insert(
            pile.last().unbound(),
        ),
{
    assert(pile =~= pile.drop_last().push(pile.last()));
    to_multiset_build(pile.drop_last(), pile.last());
    lemma_unbound_push(pile.drop_last(), pile.last());
}

/// The cards of the first hands and of one more hand are the cards of the
/// hands up to and with that one.
pub proof fn lemma_hands_bag_take(hands: Seq<Seq<Card>>, seats: int)
    requires
        0 <= seats < hands.len(),
    ensures
        hands_bag(hands.take(seats + 1)) == hands_bag(hands.take(seats)).add(
            hands[seats].to_multiset(),
        ),
{
    assert(hands.take(seats + 1).drop_last() =~= hands.take(seats));
}

/// Laying a card down keeps the cards in the game what they were: the card
/// leaves the hand and comes to lie on the discard pile, where its chosen
/// color does not count.
proof fn lemma_laid_census(table: Table, card: Card, bound_color: Option<Color>)
    requires
        table.seated(),
        table.census() == standard_bag(),
        table.hands[table.current].contains(card),
    ensures
        table.laid(card, bound_color).census() == table.census(),
        table.laid(card, bound_color).hands[table.current].len() + 1
            == table.hands[table.current].len(),
        0 <= first_index(table.hands[table.current], card) < table.hands[table.current].len(),
        table.hands[table.current][first_index(table.hands[table.current], card)] == card,
        card.loose(),
{
    let hand = table.hands[table.current];
    let at = choose|at: int| 0 <= at < hand.len() && hand[at] == card;
    lemma_first_index_exists(hand, card, at);
    let i = first_index(hand, card);
    lemma_hand_cards_loose(table, table.current, i);
    lemma_census_loss(table, table.current, i);
    let placed = Table::placed(card, bound_color);
    lemma_unbound_push(table.discard, placed);
}

/// In a game that holds one full deck, the cards in hands are loose cards of
/// that deck.
proof fn lemma_hand_cards_loose(table: Table, seat: int, i: int)
    requires
        table.census() == standard_bag(),
        0 <= seat < table.hands.len(),
        0 <= i < table.hands[seat].len(),
    ensures
        table.hands[seat][i].loose(),
{
    let card = table.hands[seat][i];
    lemma_hands_bag_holds(table.hands, seat, i);
    lemma_deck_composition();
    assert(standard_bag().count(card) == copies(card));
}

/// A card that occurs in a hand has a first occurrence there.
proof fn lemma_first_index_exists(hand: Seq<Card>, card: Card, at: int)
    requires
        0 <= at < hand.len(),
        hand[at] == card,
    ensures
        0 <= first_index(hand, card) <= at,
        hand[first_index(hand, card)] == card,
        forall|j: int| 0 <= j < first_index(hand, card) ==> hand[j] != card,
    decreases hand.len(),
{
    if hand.first() != card {
        let rest = hand.drop_first();
        lemma_first_index_exists(rest, card, at - 1);
        assert forall|j: int| 0 <= j < first_index(hand, card) implies hand[j] != card by {
            if j > 0 {
                assert(rest[j - 1] == hand[j]);
            }
        }
    }
}

/// Cards that come into a hand come into the game.
proof fn lemma_census_gain(table: Table, seat: int, cards: Seq<Card>)
    requires
        0 <= seat < table.hands.len(),
    ensures
        (Table { hands: table.hands.update(seat, table.hands[seat] + cards), ..table }).census()
            == table.census().add(cards.to_multiset()),
{
    let hand = table.hands[seat];
    let after = Table { hands: table.hands.update(seat, hand + cards), ..table };
    lemma_hands_update(table.hands, seat, hand + cards);
    lemma_multiset_commutative(hand, cards);
    assert forall|card: Card|
        after.census().count(card) == table.census().add(cards.to_multiset()).count(card) by {
        assert(hands_bag(after.hands).add(hand.to_multiset()).count(card) == hands_bag(
            table.hands,
        ).add((hand + cards).to_multiset()).count(card));
    }
}

/// A card that leaves a hand leaves the game.
proof fn lemma_census_loss(table: Table, seat: int, i: int)
    requires
        0 <= seat < table.hands.len(),
        0 <= i < table.hands[seat].len(),
    ensures
        (Table { hands: table.hands.update(seat, table.hands[seat].remove(i)), ..table }).census().insert(
        table.hands[seat][i]) == table.census(),
{
    let hand = table.hands[seat];
    let after = Table { hands: table.hands.update(seat, hand.remove(i)), ..table };
    lemma_hands_update(table.hands, seat, hand.remove(i));
    hand.to_multiset_ensures();
    assert forall|card: Card|
        after.census().insert(hand[i]).count(card) == table.census().count(card) by {
        assert(hands_bag(after.hands).add(hand.to_multiset()).count(card) == hands_bag(
            table.hands,
        ).add(hand.remove(i).to_multiset()).count(card));
    }
}

/// Changing one hand changes the bag and the number of the cards in hands by
/// what that hand lost and gained.
proof fn lemma_hands_update(hands: Seq<Seq<Card>>, seat: int, hand: Seq<Card>)
    requires
        0 <= seat < hands.len(),
    ensures
        hands_bag(hands.update(seat, hand)).add(hands[seat].to_multiset()) == hands_bag(hands).add(
            hand.to_multiset(),
        ),
        hands_total(hands.update(seat, hand)) + hands[seat].len() == hands_total(hands)
            + hand.len(),
    decreases hands.len(),
{
    let changed = hands.update(seat, hand);
    let front = hands.drop_last();
    if seat == hands.len() - 1 {
        assert(changed.drop_last() =~= front);
    } else {
        lemma_hands_update(front, seat, hand);
        assert(changed.drop_last() =~= front.update(seat, hand));
        assert forall|card: Card|
            hands_bag(front.update(seat, hand)).count(card) + hands[seat].to_multiset().count(card)
                == hands_bag(front).count(card) + hand.to_multiset().count(card) by {
            assert(hands_bag(front.update(seat, hand)).add(hands[seat].to_multiset()).count(card)
                == hands_bag(front).add(hand.to_multiset()).count(card));
        }
    }
}

/// The bag of the cards in hands has as many cards as the hands have.
proof fn lemma_hands_bag_len(hands: Seq<Seq<Card>>)
    ensures
        hands_bag(hands).len() == hands_total(hands),
    decreases hands.len(),
{
    if hands.len() > 0 {
        lemma_hands_bag_len(hands.drop_last());
        hands.last().to_multiset_ensures();
    }
}

/// A card that a player holds is one of the cards in the game.
proof fn lemma_hands_bag_holds(hands: Seq<Seq<Card>>, seat: int, i: int)
    requires
        0 <= seat < hands.len(),
        0 <= i < hands[seat].len(),
    ensures
        hands_bag(hands).count(hands[seat][i]) > 0,
    decreases hands.len(),
{
    if seat == hands.len() - 1 {
        hands.last().to_multiset_ensures();
    } else {
        lemma_hands_bag_holds(hands.drop_last(), seat, i);
    }
}

/// Taking the chosen colors off goes card by card.
proof fn lemma_unbound_push(cards: Seq<Card>, card: Card)
    ensures
        unbound_all(cards.push(card)) == unbound_all(cards).push(card.unbound()),
        unbound_all(cards.push(card)).to_multiset() == unbound_all(cards).to_multiset().insert(
            card.unbound(),
        ),
{
    assert(unbound_all(cards.push(card)) =~= unbound_all(cards).push(card.unbound()));
    to_multiset_build(unbound_all(cards), card.unbound());
}

/// The cards that come off the top of a pile are the cards that the pile
/// loses.
proof fn lemma_off_top(pile: Seq<Card>, n: nat)
    requires
        n <= pile.len(),
    ensures
        pile.to_multiset() == pile.take(pile.len() - n).to_multiset().add(
            off_top(pile, n).to_multiset(),
        ),
{
    let under = pile.take(pile.len() - n);
    let top = pile.skip(pile.len() - n);
    assert(pile =~= under + top);
    lemma_multiset_commutative(under, top);
    assert(off_top(pile, n) =~= top.reverse());
    top.lemma_reverse_to_multiset();
}

/// A pile of cards that are each one of two cards has as many cards as it
/// has of the one and of the other.
proof fn lemma_two_cards(pile: Seq<Card>, one: Card, other: Card)
    requires
        one != other,
        forall|i: int| 0 <= i < pile.len() ==> pile[i] == one || pile[i] == other,
    ensures
        pile.len() == pile.to_multiset().count(one) + pile.to_multiset().count(other),
    decreases pile.len(),
{
    if pile.len() == 0 {
        pile.to_multiset_ensures();
    } else {
        lemma_two_cards(pile.drop_last(), one, other);
        lemma_pile_top(pile);
    }
}

/// The hands that were dealt and what is left of the deck are the deck.
proof fn lemma_dealt_hands(count: int, deck: Seq<Card>, seats: int)
    requires
        0 <= seats <= count,
        7 * count <= deck.len(),
    ensures
        hands_bag(
            Seq::new(count as nat, |p: int| off_top(deck.take(deck.len() - 7 * p), 7)).take(seats),
        ).add(deck.take(deck.len() - 7 * seats).to_multiset()) == deck.to_multiset(),
    decreases seats,
{
    let hands = Seq::new(count as nat, |p: int| off_top(deck.take(deck.len() - 7 * p), 7));
    if seats == 0 {
        assert(deck.take(deck.len() - 7 * 0) =~= deck);
    } else {
        let served = seats - 1;
        let left = deck.take(deck.len() - 7 * served);
        lemma_dealt_hands(count, deck, served);
        lemma_hands_bag_take(hands, served);
        lemma_off_top(left, 7);
        assert(left.take(left.len() - 7) =~= deck.take(deck.len() - 7 * seats));
    }
}

} // verus!
