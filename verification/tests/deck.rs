use uno::cards::{Card, CardType, Color};
use uno::deck::{get_deck, is_standard, DECK_SIZE, FACES};

fn count(deck: &[Card], card: Card) -> usize {
    deck.iter().filter(|c| **c == card).count()
}

#[test]
fn deck_has_108_cards() {
    assert_eq!(get_deck().len(), 108);
    assert_eq!(DECK_SIZE, 108);
    assert_eq!(FACES, 54);
}

#[test]
fn deck_composition() {
    let deck = get_deck();
    let colors = [Color::Red, Color::Green, Color::Blue, Color::Yellow];
    for color in colors {
        assert_eq!(count(&deck, Card { color, card_type: CardType::Number(0) }), 1);
        for n in 1..=9 {
            assert_eq!(count(&deck, Card { color, card_type: CardType::Number(n) }), 2);
        }
        assert_eq!(count(&deck, Card { color, card_type: CardType::Reverse }), 2);
        assert_eq!(count(&deck, Card { color, card_type: CardType::Skip }), 2);
        assert_eq!(count(&deck, Card { color, card_type: CardType::Plus2 }), 2);
    }
    assert_eq!(count(&deck, Card { color: Color::Any, card_type: CardType::Wild(Color::Any) }), 4);
    assert_eq!(
        count(&deck, Card { color: Color::Any, card_type: CardType::WildPlus4(Color::Any) }),
        4
    );
    let zeros = deck.iter().filter(|c| c.card_type == CardType::Number(0)).count();
    assert_eq!(zeros, 4);
    for n in 1..=9 {
        let of_number = deck.iter().filter(|c| c.card_type == CardType::Number(n)).count();
        assert_eq!(of_number, 8);
    }
}

#[test]
fn every_card_of_the_deck_is_valid() {
    for card in get_deck() {
        assert!(card.is_valid());
        assert_eq!(Card::new_from(card.color, card.card_type), Ok(card));
    }
}

#[test]
fn deck_order_is_fixed() {
    let deck = get_deck();
    assert_eq!(deck, get_deck());
    assert_eq!(deck[0], Card { color: Color::Red, card_type: CardType::Number(0) });
    assert_eq!(deck[1], Card { color: Color::Red, card_type: CardType::Number(1) });
    assert_eq!(deck[2], Card { color: Color::Red, card_type: CardType::Number(1) });
    assert_eq!(deck[3], Card { color: Color::Red, card_type: CardType::Number(2) });
    assert_eq!(deck[18], Card { color: Color::Red, card_type: CardType::Number(9) });
    assert_eq!(deck[19], Card { color: Color::Red, card_type: CardType::Reverse });
    assert_eq!(deck[21], Card { color: Color::Red, card_type: CardType::Skip });
    assert_eq!(deck[23], Card { color: Color::Red, card_type: CardType::Plus2 });
    assert_eq!(deck[24], Card { color: Color::Red, card_type: CardType::Plus2 });
    assert_eq!(deck[25], Card { color: Color::Green, card_type: CardType::Number(0) });
    assert_eq!(deck[50], Card { color: Color::Blue, card_type: CardType::Number(0) });
    assert_eq!(deck[75], Card { color: Color::Yellow, card_type: CardType::Number(0) });
    assert_eq!(deck[99], Card { color: Color::Yellow, card_type: CardType::Plus2 });
    for i in 100..104 {
        assert_eq!(deck[i], Card { color: Color::Any, card_type: CardType::Wild(Color::Any) });
    }
    for i in 104..108 {
        assert_eq!(deck[i], Card { color: Color::Any, card_type: CardType::WildPlus4(Color::Any) });
    }
}

#[test]
fn a_full_deck_is_recognised_in_any_order() {
    let mut deck = get_deck();
    assert!(is_standard(&deck));
    deck.reverse();
    assert!(is_standard(&deck));
    deck.swap(3, 77);
    deck.swap(0, 107);
    assert!(is_standard(&deck));
}

#[test]
fn anything_else_is_not_a_full_deck() {
    assert!(!is_standard(&Vec::new()));

    let mut short = get_deck();
    short.pop();
    assert!(!is_standard(&short));

    let mut long = get_deck();
    long.push(Card { color: Color::Red, card_type: CardType::Number(0) });
    assert!(!is_standard(&long));

    // Right size, wrong cards: a second red 0 in place of a red 1.
    let mut swapped = get_deck();
    swapped[1] = Card { color: Color::Red, card_type: CardType::Number(0) };
    assert!(!is_standard(&swapped));

    // A wild card with a chosen color is not a card of the deck.
    let mut bound = get_deck();
    bound[100] = Card { color: Color::Any, card_type: CardType::Wild(Color::Red) };
    assert!(!is_standard(&bound));

    // Nor is an invalid card.
    let mut invalid = get_deck();
    invalid[0] = Card { color: Color::Red, card_type: CardType::Number(10) };
    assert!(!is_standard(&invalid));
    let mut invalid = get_deck();
    invalid[0] = Card { color: Color::Any, card_type: CardType::Number(0) };
    assert!(!is_standard(&invalid));
}
