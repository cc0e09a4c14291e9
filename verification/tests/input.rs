use uno::cards::{Card, CardType, Color};
use uno::game_state::Action;
use uno::input::{parse_action, parse_color, parse_menu, parse_number, InputError, MenuChoice};
use uno::players::Players;

fn red_card(n: i32) -> Card {
    Card { color: Color::Red, card_type: CardType::Number(n) }
}

fn players_with_hand(hand: &[Card]) -> Players {
    let mut players = Players::new(2);
    for card in hand {
        players.get_hand(0).push(*card);
    }
    players.get_hand(1).push(red_card(9));
    players
}

#[test]
fn a_letter_chooses_a_color() {
    assert_eq!(parse_color("R"), Some(Color::Red));
    assert_eq!(parse_color("r"), Some(Color::Red));
    assert_eq!(parse_color("G"), Some(Color::Green));
    assert_eq!(parse_color("g"), Some(Color::Green));
    assert_eq!(parse_color("B"), Some(Color::Blue));
    assert_eq!(parse_color("b"), Some(Color::Blue));
    assert_eq!(parse_color("Y"), Some(Color::Yellow));
    assert_eq!(parse_color("y"), Some(Color::Yellow));
}

#[test]
fn nothing_else_chooses_a_color() {
    assert_eq!(parse_color(""), None);
    assert_eq!(parse_color("A"), None);
    assert_eq!(parse_color("red"), None);
    assert_eq!(parse_color("R "), None);
    assert_eq!(parse_color(" R"), None);
    assert_eq!(parse_color("RR"), None);
    assert_eq!(parse_color("é"), None);
}

#[test]
fn digits_write_a_number() {
    assert_eq!(parse_number("0"), Some(0));
    assert_eq!(parse_number("7"), Some(7));
    assert_eq!(parse_number("10"), Some(10));
    assert_eq!(parse_number("108"), Some(108));
    assert_eq!(parse_number("007"), Some(7));
    assert_eq!(parse_number("+3"), Some(3));
    assert_eq!(parse_number("1234567890"), Some(1234567890));
}

#[test]
fn parse_number_agrees_with_the_standard_library() {
    let lines = [
        "", "+", "-", "-1", "-0", "++1", "+-1", "1+", "12a", "a12", " 1", "1 ", "1.5", "0x10",
        "١", "0", "00", "+0", "42", "+42", "18446744073709551615", "18446744073709551616",
        "99999999999999999999999", "4294967295", "4294967296",
    ];
    for line in lines {
        assert_eq!(parse_number(line), line.parse::<usize>().ok());
    }
    assert_eq!(parse_number(&usize::MAX.to_string()), Some(usize::MAX));
}

#[test]
fn a_number_names_a_card_of_the_hand() {
    let players = players_with_hand(&[red_card(1), red_card(2), red_card(3)]);
    assert_eq!(parse_action("1", &players), Ok(Action::Play(red_card(1), 0)));
    assert_eq!(parse_action("2", &players), Ok(Action::Play(red_card(2), 1)));
    assert_eq!(parse_action("3", &players), Ok(Action::Play(red_card(3), 2)));
    assert_eq!(parse_action("+3", &players), Ok(Action::Play(red_card(3), 2)));
}

#[test]
fn a_number_beyond_the_hand_names_no_card() {
    let players = players_with_hand(&[red_card(1), red_card(2), red_card(3)]);
    assert_eq!(parse_action("0", &players), Err(InputError::NoSuchCard));
    assert_eq!(parse_action("4", &players), Err(InputError::NoSuchCard));
    assert_eq!(parse_action("1000", &players), Err(InputError::NoSuchCard));
    let empty = players_with_hand(&[]);
    assert_eq!(parse_action("1", &empty), Err(InputError::NoSuchCard));
}

#[test]
fn pass_asks_to_draw() {
    let players = players_with_hand(&[red_card(1)]);
    assert_eq!(parse_action("pass", &players), Ok(Action::Draw));
    assert_eq!(parse_action("p", &players), Ok(Action::Draw));
}

#[test]
fn anything_else_is_not_understood() {
    let players = players_with_hand(&[red_card(1)]);
    assert_eq!(parse_action("", &players), Err(InputError::NotUnderstood));
    assert_eq!(parse_action("Pass", &players), Err(InputError::NotUnderstood));
    assert_eq!(parse_action("pas", &players), Err(InputError::NotUnderstood));
    assert_eq!(parse_action("passs", &players), Err(InputError::NotUnderstood));
    assert_eq!(parse_action("draw", &players), Err(InputError::NotUnderstood));
    assert_eq!(parse_action("-1", &players), Err(InputError::NotUnderstood));
    assert_eq!(parse_action("1 ", &players), Err(InputError::NotUnderstood));
    assert_eq!(
        parse_action("99999999999999999999999", &players),
        Err(InputError::NotUnderstood)
    );
}

#[test]
fn the_card_named_is_that_of_the_current_player() {
    let mut players = players_with_hand(&[red_card(1), red_card(2)]);
    players.next_player();
    assert_eq!(parse_action("1", &players), Ok(Action::Play(red_card(9), 0)));
    assert_eq!(parse_action("2", &players), Err(InputError::NoSuchCard));
}

#[test]
fn the_menu_takes_start_and_numbers() {
    assert_eq!(parse_menu("start"), MenuChoice::Start);
    assert_eq!(parse_menu("4"), MenuChoice::Players(4));
    assert_eq!(parse_menu("+2"), MenuChoice::Players(2));
    assert_eq!(parse_menu("15"), MenuChoice::Players(15));
    assert_eq!(parse_menu("0"), MenuChoice::NoPlayers);
    assert_eq!(parse_menu("-1"), MenuChoice::NoPlayers);
    assert_eq!(parse_menu("-0"), MenuChoice::NoPlayers);
    assert_eq!(parse_menu("-12"), MenuChoice::NoPlayers);
    assert_eq!(parse_menu(""), MenuChoice::NotUnderstood);
    assert_eq!(parse_menu("-"), MenuChoice::NotUnderstood);
    assert_eq!(parse_menu("--1"), MenuChoice::NotUnderstood);
    assert_eq!(parse_menu("-+1"), MenuChoice::NotUnderstood);
    assert_eq!(parse_menu("-1a"), MenuChoice::NotUnderstood);
    assert_eq!(parse_menu("Start"), MenuChoice::NotUnderstood);
    assert_eq!(parse_menu("start "), MenuChoice::NotUnderstood);
    assert_eq!(parse_menu("go"), MenuChoice::NotUnderstood);
}
