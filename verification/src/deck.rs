//! The standard deck: which cards it holds, how many of each, and the fixed
//! order in which a fresh deck lists them.

use crate::cards::{Card, CardType, Color};
use vstd::multiset::Multiset;
use vstd::prelude::*;
use vstd::seq_lib::{lemma_multiset_commutative, to_multiset_build};

verus! {

/// Number of distinct cards in the deck.
pub const FACES: usize = 54;

/// Number of cards in the deck.
pub const DECK_SIZE: usize = 108;

/// The color of the `b`-th block of a fresh deck.
pub open spec fn block_color(b: int) -> Color {
    if b == 0 {
        Color::Red
    } else if b == 1 {
        Color::Green
    } else if b == 2 {
        Color::Blue
    } else {
        Color::Yellow
    }
}

/// The card type in the `r`-th place of a color block: the numbers 0 to 9,
/// then Reverse, Skip and Plus2.
pub open spec fn block_type(r: int) -> CardType {
    if r < 10 {
        CardType::Number(r as i32)
    } else if r == 10 {
        CardType::Reverse
    } else if r == 11 {
        CardType::Skip
    } else {
        CardType::Plus2
    }
}

/// The `k`-th distinct card, for `k` in `0..54`: four color blocks of 13 cards
/// each, then Wild and WildPlus4, both without a chosen color.
pub open spec fn face(k: int) -> Card {
    if k < 52 {
        Card { color: block_color(k / 13), card_type: block_type(k % 13) }
    } else if k == 52 {
        Card { color: Color::Any, card_type: CardType::Wild(Color::Any) }
    } else {
        Card { color: Color::Any, card_type: CardType::WildPlus4(Color::Any) }
    }
}

/// The place of a card among the distinct cards: the inverse of [`face`] on
/// the cards that the deck holds.
pub open spec fn face_index(card: Card) -> int {
    let block: int = match card.color {
        Color::Red => 0,
        Color::Green => 1,
        Color::Blue => 2,
        Color::Yellow => 3,
        Color::Any => 4,
    };
    match card.card_type {
        CardType::Number(n) => block * 13 + n,
        CardType::Reverse => block * 13 + 10,
        CardType::Skip => block * 13 + 11,
        CardType::Plus2 => block * 13 + 12,
        CardType::Wild(_) => 52,
        CardType::WildPlus4(_) => 53,
    }
}

/// How many copies of `card` a deck holds: one of each 0, two of each other
/// colored card, four of each wild card, and none of anything else. A wild
/// card with a chosen color is not a card of the deck: the choice is made
/// when the card is played.
pub open spec fn copies(card: Card) -> nat {
    if !card.valid() {
        0
    } else {
        match card.card_type {
            CardType::Number(n) => if n == 0 {
                1
            } else {
                2
            },
            CardType::Wild(c) => if c == Color::Any {
                4
            } else {
                0
            },
            CardType::WildPlus4(c) => if c == Color::Any {
                4
            } else {
                0
            },
            _ => 2,
        }
    }
}

/// `n` copies of one card.
pub open spec fn run(card: Card, n: nat) -> Seq<Card> {
    Seq::new(n, |i: int| card)
}

/// The fresh deck as far as the first `k` distinct cards: each of them in
/// turn, as many times as the deck holds it.
pub open spec fn deck_prefix(k: nat) -> Seq<Card>
    decreases k,
{
    if k == 0 {
        Seq::empty()
    } else {
        deck_prefix((k - 1) as nat) + run(face(k - 1), copies(face(k - 1)))
    }
}

/// The fresh deck, in its fixed order.
pub open spec fn standard_deck() -> Seq<Card> {
    deck_prefix(54)
}

/// Where the copies of the `k`-th distinct card start in the fresh deck.
pub open spec fn offset(k: int) -> int {
    if k <= 52 {
        (k / 13) * 25 + if k % 13 == 0 {
            0
        } else {
            2 * (k % 13) - 1
        }
    } else if k == 53 {
        104
    } else {
        108
    }
}

/// [`face`] and [`face_index`] are inverse to each other on the cards that
/// the deck holds, and those cards are the ones that [`copies`] counts.
pub proof fn lemma_face_index(k: int)
    requires
        0 <= k < 54,
    ensures
        face_index(face(k)) == k,
        face(k).valid(),
        copies(face(k)) == if k >= 52 {
            4nat
        } else if k % 13 == 0 {
            1nat
        } else {
            2nat
        },
{
}

/// Every card that the deck holds at least once is one of the 54 distinct
/// cards.
pub proof fn lemma_face_of_index(card: Card)
    requires
        copies(card) > 0,
    ensures
        0 <= face_index(card) < 54,
        face(face_index(card)) == card,
{
}

/// Going through the distinct cards with [`Card::successor`] visits them in
/// the order of [`face`], starting from the cursor that [`Card::new`] gives.
pub proof fn lemma_successor(k: int)
    requires
        0 <= k < 54,
    ensures
        face(k).successor() == if k < 53 {
            Some(face(k + 1))
        } else {
            None
        },
        face(k).card_type matches CardType::Number(x) ==> x <= 9,
{
}

/// The fresh deck as far as the first `k` distinct cards ends where the
/// copies of the next one start.
proof fn lemma_prefix_len(k: nat)
    requires
        k <= 54,
    ensures
        deck_prefix(k).len() == offset(k as int),
    decreases k,
{
    if k > 0 {
        lemma_prefix_len((k - 1) as nat);
    }
}

/// `n` copies of one card hold that card `n` times and no other card.
proof fn lemma_run_count(card: Card, n: nat, other: Card)
    ensures
        run(card, n).to_multiset().count(other) == if other == card {
            n
        } else {
            0
        },
    decreases n,
{
    if n == 0 {
        run(card, n).to_multiset_ensures();
    } else {
        lemma_run_count(card, (n - 1) as nat, other);
        assert(run(card, n) =~= run(card, (n - 1) as nat).push(card));
        to_multiset_build(run(card, (n - 1) as nat), card);
    }
}

/// The fresh deck as far as the first `k` distinct cards holds each of them
/// as often as the whole deck does, and none of the others.
proof fn lemma_prefix_count(k: nat, card: Card)
    requires
        k <= 54,
    ensures
        deck_prefix(k).to_multiset().count(card) == if copies(card) > 0 && face_index(card) < k {
            copies(card)
        } else {
            0
        },
    decreases k,
{
    if k == 0 {
        deck_prefix(0).to_multiset_ensures();
    } else {
        let j = (k - 1) as nat;
        lemma_prefix_count(j, card);
        lemma_run_count(face(j as int), copies(face(j as int)), card);
        lemma_multiset_commutative(deck_prefix(j), run(face(j as int), copies(face(j as int))));
    }
}

/// The fresh deck as a bag of cards: what any shuffled deck holds.
pub open spec fn standard_bag() -> Multiset<Card> {
    standard_deck().to_multiset()
}

/// The cards of the deck are the loose ones: valid, and wild cards without a
/// chosen color.
pub proof fn lemma_copies_loose(card: Card)
    ensures
        copies(card) > 0 <==> card.loose(),
{
}

/// Deck composition: the fresh deck has 108 cards, every one of them valid,
/// and it holds each card exactly [`copies`] times: one 0 and two each of 1
/// to 9, Reverse, Skip and Plus2 in each of the four colors, four Wild and
/// four WildPlus4, and nothing else.
pub proof fn lemma_deck_composition()
    ensures
        standard_deck().len() == 108,
        forall|i: int| 0 <= i < 108 ==> (#[trigger] standard_deck()[i]).valid(),
        forall|card: Card| #[trigger] standard_bag().count(card) == copies(card),
        standard_bag().len() == 108,
{
    standard_deck().to_multiset_ensures();
    lemma_prefix_len(54);
    assert forall|card: Card| #[trigger] standard_bag().count(card) == copies(card) by {
        lemma_prefix_count(54, card);
    }
    assert forall|i: int| 0 <= i < 108 implies (#[trigger] standard_deck()[i]).valid() by {
        let card = standard_deck()[i];
        assert(standard_bag().count(card) == copies(card));
    }
}

/// The place of a loose card among the distinct cards.
fn face_number(card: &Card) -> (k: usize)
    requires
        card.loose(),
    ensures
        k == face_index(*card),
        k < 54,
{
    let block: usize = match card.color {
        Color::Red => 0,
        Color::Green => 1,
        Color::Blue => 2,
        Color::Yellow => 3,
        Color::Any => 4,
    };
    match card.card_type {
        CardType::Number(n) => block * 13 + (n as usize),
        CardType::Reverse => block * 13 + 10,
        CardType::Skip => block * 13 + 11,
        CardType::Plus2 => block * 13 + 12,
        CardType::Wild(_) => 52,
        CardType::WildPlus4(_) => 53,
    }
}

/// How many copies of the `k`-th distinct card a deck holds.
fn copies_of_face(k: usize) -> (n: usize)
    requires
        k < 54,
    ensures
        n == copies(face(k as int)),
{
    if k >= 52 {
        4
    } else if k % 13 == 0 {
        1
    } else {
        2
    }
}

/// Decides whether `cards` is a full deck in some order: whether it holds
/// every card exactly as often as the fresh deck does.
pub fn is_standard(cards: &Vec<Card>) -> (b: bool)
    ensures
        b == (cards@.to_multiset() == standard_bag()),
{
    proof {
        lemma_deck_composition();
    }
    let mut tally: Vec<usize> = Vec::new();
    let mut k: usize = 0;
    while k < FACES
        invariant
            k <= 54,
            tally@.len() == k,
            forall|j: int| 0 <= j < k ==> tally@[j] == 0,
        decreases 54 - k,
    {
        tally.push(0);
        k += 1;
    }
    let mut i: usize = 0;
    proof {
        cards@.take(0).to_multiset_ensures();
    }
    while i < cards.len()
        invariant
            i <= cards@.len(),
            tally@.len() == 54,
            forall|j: int|
                0 <= j < 54 ==> #[trigger] tally@[j] == cards@.take(i as int).to_multiset().count(
                    face(j),
                ),
            forall|j: int| 0 <= j < i ==> (#[trigger] cards@[j]).loose(),
            forall|card: Card| #[trigger] standard_bag().count(card) == copies(card),
        decreases cards@.len() - i,
    {
        let card: Card = cards[i];
        if !(card.is_valid() && card.unbind() == card) {
            proof {
                cards@.to_multiset_ensures();
                assert(standard_bag().count(card) == copies(card));
            }
            return false;
        }
        let f: usize = face_number(&card);
        proof {
            let before = cards@.take(i as int);
            assert(cards@.take(i + 1) =~= before.push(card));
            before.to_multiset_ensures();
            assert forall|j: int| 0 <= j < 54 && j != f implies face(j) != card by {}
        }
        let seen: usize = tally[f];
        tally.set(f, seen + 1);
        i += 1;
    }
    assert(cards@.take(i as int) =~= cards@);
    let mut k: usize = 0;
    while k < FACES
        invariant
            k <= 54,
            tally@.len() == 54,
            forall|j: int| 0 <= j < 54 ==> #[trigger] tally@[j] == cards@.to_multiset().count(face(j)),
            forall|j: int| 0 <= j < k ==> #[trigger] tally@[j] == copies(face(j)),
            forall|card: Card| #[trigger] standard_bag().count(card) == copies(card),
        decreases 54 - k,
    {
        if tally[k] != copies_of_face(k) {
            return false;
        }
        k += 1;
    }
    proof {
        assert forall|card: Card|
            cards@.to_multiset().count(card) == #[trigger] standard_bag().count(card) by {
            if copies(card) > 0 {
                assert(tally@[face_index(card)] == copies(face(face_index(card))));
            } else {
                cards@.to_multiset_ensures();
            }
        }
        assert(cards@.to_multiset() =~= standard_bag());
    }
    true
}

/// Builds the fresh deck by going through the distinct cards in order and
/// laying each one down as often as the deck holds it. Nothing is shuffled
/// here.
pub fn get_deck() -> (deck: Vec<Card>)
    ensures
        deck@ == standard_deck(),
        deck@.len() == 108,
{
    let mut vec: Vec<Card> = Vec::new();
    let mut iter: Card = Card::new();
    let ghost mut k: nat = 0;
    loop
        invariant
            k <= 54,
            vec@ == deck_prefix(k),
            iter == if k == 0 {
                Card { color: Color::Red, card_type: CardType::Number(-1i32) }
            } else {
                face(k - 1)
            },
        decreases 54 - k,
    {
        let card: Option<Card> = iter.next();
        match card {
            Some(card) => {
                match card.card_type {
                    CardType::Number(x) => {
                        vec.push(card);
                        if x != 0 {
                            vec.push(card);
                        }
                    },
                    CardType::Reverse | CardType::Skip | CardType::Plus2 => {
                        vec.push(card);
                        vec.push(card);
                    },
                    CardType::Wild(_) | CardType::WildPlus4(_) => {
                        vec.push(card);
                        vec.push(card);
                        vec.push(card);
                        vec.push(card);
                    },
                }
                proof {
                    k = k + 1;
                }
            },
            None => {
                proof {
                    lemma_prefix_len(54);
                }
                return vec;
            },
        }
    }
}

} // verus!
