use uno::cards::{Card, CardType, Color};
use uno::legality::playable_card;

#[test]
fn test_playable_card() {
    // Play same color onto another
    let card: Card = Card { color: Color::Red, card_type: CardType::Number(6) };
    let onto: Card = Card { color: Color::Red, card_type: CardType::Skip };
    assert!(playable_card(&card, &onto));

    // Play same card type onto another
    let card = Card { color: Color::Red, card_type: CardType::Skip };
    let onto = Card { color: Color::Blue, card_type: CardType::Skip };
    assert!(playable_card(&card, &onto));

    // Play a wild card onto another
    let card = Card { color: Color::Any, card_type: CardType::Wild(Color::Any) };
    let onto = Card { color: Color::Blue, card_type: CardType::Skip };
    assert!(playable_card(&card, &onto));

    // Play a card onto another wild card of the same color
    let card = Card { color: Color::Red, card_type: CardType::Reverse };
    let onto = Card { color: Color::Any, card_type: CardType::WildPlus4(Color::Red) };
    assert!(playable_card(&card, &onto));

    // Cannot play a card onto another wild card of a different color
    let card = Card { color: Color::Red, card_type: CardType::Reverse };
    let onto = Card { color: Color::Any, card_type: CardType::WildPlus4(Color::Blue) };
    assert!(!playable_card(&card, &onto));

    // Cannot play a card that shares nothing with another card
    let card = Card { color: Color::Red, card_type: CardType::Number(6) };
    let onto = Card { color: Color::Blue, card_type: CardType::Skip };
    assert!(!playable_card(&card, &onto));
}

#[test]
fn same_number_goes_on_another_color() {
    let card = Card { color: Color::Green, card_type: CardType::Number(4) };
    let onto = Card { color: Color::Yellow, card_type: CardType::Number(4) };
    assert!(playable_card(&card, &onto));
    let other = Card { color: Color::Yellow, card_type: CardType::Number(5) };
    assert!(!playable_card(&card, &other));
}

#[test]
fn wild_in_hand_goes_on_anything() {
    let wild = Card { color: Color::Any, card_type: CardType::Wild(Color::Any) };
    let wild4 = Card { color: Color::Any, card_type: CardType::WildPlus4(Color::Any) };
    let ontos = [
        Card { color: Color::Red, card_type: CardType::Number(0) },
        Card { color: Color::Blue, card_type: CardType::Plus2 },
        Card { color: Color::Any, card_type: CardType::Wild(Color::Green) },
        Card { color: Color::Any, card_type: CardType::WildPlus4(Color::Yellow) },
    ];
    for onto in ontos {
        assert!(playable_card(&wild, &onto));
        assert!(playable_card(&wild4, &onto));
    }
}

#[test]
fn chosen_color_stands_for_the_wild_card() {
    let onto = Card { color: Color::Any, card_type: CardType::Wild(Color::Green) };
    for n in 0..=9 {
        assert!(playable_card(&Card { color: Color::Green, card_type: CardType::Number(n) }, &onto));
        assert!(!playable_card(&Card { color: Color::Red, card_type: CardType::Number(n) }, &onto));
    }
}

#[test]
fn legality_goes_by_color_or_rank() {
    let colors = [Color::Green, Color::Blue, Color::Red, Color::Yellow];
    let types = [
        CardType::Number(0),
        CardType::Number(7),
        CardType::Reverse,
        CardType::Skip,
        CardType::Plus2,
    ];
    for color in colors {
        for card_type in types {
            for onto_color in colors {
                for onto_type in types {
                    let card = Card { color, card_type };
                    let onto = Card { color: onto_color, card_type: onto_type };
                    let expected = color == onto_color || card_type == onto_type;
                    assert_eq!(playable_card(&card, &onto), expected);
                }
            }
        }
    }
}

#[test]
fn rank_is_compared_without_the_chosen_color() {
    assert!(CardType::Wild(Color::Red).is_same_rank(&CardType::Wild(Color::Any)));
    assert!(CardType::WildPlus4(Color::Red).is_same_rank(&CardType::WildPlus4(Color::Blue)));
    assert!(!CardType::Wild(Color::Red).is_same_rank(&CardType::WildPlus4(Color::Red)));
    assert!(CardType::Number(3).is_same_rank(&CardType::Number(3)));
    assert!(!CardType::Number(3).is_same_rank(&CardType::Number(4)));
    assert!(!CardType::Skip.is_same_rank(&CardType::Reverse));
}

#[test]
fn effective_color_of_a_card() {
    let red_five = Card { color: Color::Red, card_type: CardType::Number(5) };
    let bound = Card { color: Color::Any, card_type: CardType::WildPlus4(Color::Blue) };
    let unbound = Card { color: Color::Any, card_type: CardType::Wild(Color::Any) };
    assert_eq!(red_five.active_color(), Color::Red);
    assert_eq!(bound.active_color(), Color::Blue);
    assert_eq!(unbound.active_color(), Color::Any);
}
