use uno::cards::{Card, CardType, Color, InvalidCard};

#[test]
fn test_new_card() {
    let results = [
        Card::new_from(Color::Any, CardType::Wild(Color::Any)),
        Card::new_from(Color::Blue, CardType::Reverse),
        Card::new_from(Color::Green, CardType::Number(9)),
        Card::new_from(Color::Red, CardType::Number(0)),
        Card::new_from(Color::Any, CardType::WildPlus4(Color::Green)),
    ];
    for result in results {
        match result {
            Ok(_) => {}
            Err(_) => panic!(),
        }
    }
}

#[test]
fn test_invalid_cards() {
    let results = [
        Card::new_from(Color::Red, CardType::Wild(Color::Any)),
        Card::new_from(Color::Any, CardType::Number(2)),
        Card::new_from(Color::Red, CardType::Number(-1)),
        Card::new_from(Color::Red, CardType::Number(10)),
    ];
    for result in results {
        match result {
            Ok(_) => panic!(),
            Err(_) => {}
        }
    }
}

#[test]
fn new_from_keeps_color_and_type() {
    let card = Card::new_from(Color::Yellow, CardType::Skip).unwrap();
    assert_eq!(card.color, Color::Yellow);
    assert_eq!(card.card_type, CardType::Skip);
    assert_eq!(card, Card { color: Color::Yellow, card_type: CardType::Skip });
    assert!(card.is_valid());
}

#[test]
fn new_from_names_the_broken_rule() {
    assert_eq!(
        Card::new_from(Color::Red, CardType::Wild(Color::Any)),
        Err(InvalidCard::WildNeedsAnyColor)
    );
    assert_eq!(
        Card::new_from(Color::Blue, CardType::WildPlus4(Color::Blue)),
        Err(InvalidCard::WildNeedsAnyColor)
    );
    assert_eq!(
        Card::new_from(Color::Any, CardType::Number(2)),
        Err(InvalidCard::AnyColorNeedsWild)
    );
    assert_eq!(
        Card::new_from(Color::Any, CardType::Skip),
        Err(InvalidCard::AnyColorNeedsWild)
    );
    assert_eq!(
        Card::new_from(Color::Red, CardType::Number(-1)),
        Err(InvalidCard::NumberOutOfRange)
    );
    assert_eq!(
        Card::new_from(Color::Red, CardType::Number(10)),
        Err(InvalidCard::NumberOutOfRange)
    );
    // `Any` on a number is reported before the number's range.
    assert_eq!(
        Card::new_from(Color::Any, CardType::Number(10)),
        Err(InvalidCard::AnyColorNeedsWild)
    );
}

#[test]
fn number_range_is_zero_to_nine() {
    for n in 0..=9 {
        assert!(Card::new_from(Color::Green, CardType::Number(n)).is_ok());
    }
    assert!(Card::new_from(Color::Green, CardType::Number(i32::MIN)).is_err());
    assert!(Card::new_from(Color::Green, CardType::Number(i32::MAX)).is_err());
}

#[test]
fn is_valid_agrees_with_new_from() {
    let colors = [Color::Green, Color::Blue, Color::Red, Color::Yellow, Color::Any];
    let types = [
        CardType::Number(-1),
        CardType::Number(0),
        CardType::Number(9),
        CardType::Number(10),
        CardType::Reverse,
        CardType::Skip,
        CardType::Plus2,
        CardType::Wild(Color::Any),
        CardType::Wild(Color::Red),
        CardType::WildPlus4(Color::Any),
        CardType::WildPlus4(Color::Blue),
    ];
    for color in colors {
        for card_type in types {
            let card = Card { color, card_type };
            assert_eq!(card.is_valid(), Card::new_from(color, card_type).is_ok());
        }
    }
}

#[test]
fn cursor_starts_before_the_red_zero() {
    let mut cursor = Card::new();
    assert_eq!(cursor, Card { color: Color::Red, card_type: CardType::Number(-1) });
    assert!(!cursor.is_valid());
    let first = cursor.next();
    assert_eq!(first, Some(Card { color: Color::Red, card_type: CardType::Number(0) }));
    assert_eq!(cursor, Card { color: Color::Red, card_type: CardType::Number(0) });
}

#[test]
fn cursor_goes_through_the_distinct_cards() {
    let mut cursor = Card::new();
    let mut seen: Vec<Card> = Vec::new();
    while let Some(card) = cursor.next() {
        seen.push(card);
        assert!(seen.len() <= 54);
    }
    assert_eq!(seen.len(), 54);
    assert_eq!(seen[0], Card { color: Color::Red, card_type: CardType::Number(0) });
    assert_eq!(seen[9], Card { color: Color::Red, card_type: CardType::Number(9) });
    assert_eq!(seen[10], Card { color: Color::Red, card_type: CardType::Reverse });
    assert_eq!(seen[11], Card { color: Color::Red, card_type: CardType::Skip });
    assert_eq!(seen[12], Card { color: Color::Red, card_type: CardType::Plus2 });
    assert_eq!(seen[13], Card { color: Color::Green, card_type: CardType::Number(0) });
    assert_eq!(seen[26], Card { color: Color::Blue, card_type: CardType::Number(0) });
    assert_eq!(seen[39], Card { color: Color::Yellow, card_type: CardType::Number(0) });
    assert_eq!(seen[51], Card { color: Color::Yellow, card_type: CardType::Plus2 });
    assert_eq!(seen[52], Card { color: Color::Any, card_type: CardType::Wild(Color::Any) });
    assert_eq!(seen[53], Card { color: Color::Any, card_type: CardType::WildPlus4(Color::Any) });
    for card in &seen {
        assert!(card.is_valid());
    }
    // At the end the cursor stays where it is.
    assert_eq!(cursor.next(), None);
    assert_eq!(cursor, seen[53]);
}

#[test]
fn cursor_steps_from_a_chosen_wild() {
    let mut cursor = Card { color: Color::Any, card_type: CardType::Wild(Color::Red) };
    assert_eq!(
        cursor.next(),
        Some(Card { color: Color::Any, card_type: CardType::WildPlus4(Color::Any) })
    );
    let mut cursor = Card { color: Color::Any, card_type: CardType::Plus2 };
    assert_eq!(cursor.next(), Some(Card { color: Color::Any, card_type: CardType::Number(0) }));
}

#[test]
fn binding_touches_wild_cards_only() {
    let wild = Card { color: Color::Any, card_type: CardType::Wild(Color::Any) };
    let wild4 = Card { color: Color::Any, card_type: CardType::WildPlus4(Color::Any) };
    let skip = Card { color: Color::Blue, card_type: CardType::Skip };
    assert_eq!(wild.bind(Color::Red).card_type, CardType::Wild(Color::Red));
    assert_eq!(wild4.bind(Color::Green).card_type, CardType::WildPlus4(Color::Green));
    assert_eq!(wild.bind(Color::Red).color, Color::Any);
    assert_eq!(skip.bind(Color::Red), skip);
    assert_eq!(wild.bind(Color::Red).unbind(), wild);
    assert_eq!(wild4.bind(Color::Yellow).unbind(), wild4);
    assert_eq!(skip.unbind(), skip);
    assert!(wild.bind(Color::Red).is_valid());
}

#[test]
fn wild_types_are_told_apart() {
    assert!(CardType::Wild(Color::Any).wild());
    assert!(CardType::WildPlus4(Color::Blue).wild());
    assert!(!CardType::Plus2.wild());
    assert!(!CardType::Number(4).wild());
}
