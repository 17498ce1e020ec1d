use card_table::card::{Card, CardPosition, Suit};
use card_table::deck::{new_deck, spawn_cards, spawn_cards_in_order};
use card_table::gamestate::{AppState, Game, Rejection};
use card_table::graveyard::spawn_graveyard;
use card_table::hand::deal_initial_hands;
use card_table::menu::{return_to_menu, start_game};
use card_table::player::spawn_player;
use card_table::turn_player::{start_turn_system, Turn};

fn seated_in_setup() -> Game {
    let mut game = Game::new();
    assert_eq!(spawn_player(&mut game), Ok(()));
    assert_eq!(start_game(&mut game), Ok(()));
    game
}

fn zone_total(game: &Game) -> usize {
    let mut total = 0;
    if let Some(deck) = game.deck() {
        total += deck.cards_values.len();
    }
    if let Some(graveyard) = game.graveyard() {
        total += graveyard.cards.len();
    }
    for p in 0..game.player_count() {
        total += game.player(p).unwrap().hand.cards.len();
        if game.find_drawn_card(p).is_some() {
            total += 1;
        }
    }
    total
}

#[test]
fn new_table_is_empty_and_in_the_menu() {
    let game = Game::new();
    assert_eq!(game.state(), AppState::MainMenu);
    assert_eq!(game.player_count(), 0);
    assert!(game.cards().is_empty());
    assert!(game.deck().is_none());
    assert!(game.graveyard().is_none());
    assert_eq!(game.turn(), None);
    assert!(!game.special_effect().is_pending());
    assert_eq!(game.double_click().last_card, None);
    assert_eq!(game.double_click().time_limit, 400);
}

#[test]
fn two_players_sit_down_and_the_first_is_local() {
    let mut game = Game::new();
    assert_eq!(spawn_player(&mut game), Ok(()));
    assert_eq!(game.player_count(), 2);
    let first = game.player(0).unwrap();
    let second = game.player(1).unwrap();
    assert_eq!(first.name, "Player 1");
    assert_eq!(second.name, "Player 2");
    assert!(first.is_local_player);
    assert!(!second.is_local_player);
    assert!(first.hand.cards.is_empty());
    assert!(second.hand.cards.is_empty());
    assert!(game.player(2).is_none());
}

#[test]
fn players_sit_down_only_once() {
    let mut game = Game::new();
    assert_eq!(spawn_player(&mut game), Ok(()));
    assert_eq!(spawn_player(&mut game), Err(Rejection::AlreadySetUp));
    assert_eq!(game.player_count(), 2);
}

#[test]
fn factory_deck_has_four_suits_of_twelve() {
    let deck = new_deck();
    assert_eq!(deck.len(), 48);
    assert_eq!(deck[0], (Suit::Coarse, 1));
    assert_eq!(deck[11], (Suit::Coarse, 12));
    assert_eq!(deck[12], (Suit::Cup, 1));
    assert_eq!(deck[24], (Suit::Gold, 1));
    assert_eq!(deck[36], (Suit::Sword, 1));
    assert_eq!(deck[47], (Suit::Sword, 12));
    for suit in [Suit::Coarse, Suit::Cup, Suit::Gold, Suit::Sword] {
        for value in 1..=12u8 {
            assert_eq!(deck.iter().filter(|card| **card == (suit, value)).count(), 1);
        }
    }
}

#[test]
fn setup_needs_the_setup_phase() {
    let mut game = Game::new();
    assert_eq!(spawn_player(&mut game), Ok(()));
    assert_eq!(spawn_graveyard(&mut game), Err(Rejection::WrongPhase));
    assert_eq!(spawn_cards(&mut game), Err(Rejection::WrongPhase));
    assert_eq!(spawn_cards_in_order(&mut game, &new_deck()), Err(Rejection::WrongPhase));
    assert_eq!(deal_initial_hands(&mut game), Err(Rejection::WrongPhase));
    assert_eq!(start_turn_system(&mut game), Err(Rejection::WrongPhase));
    assert!(game.cards().is_empty());
    assert_eq!(game.state(), AppState::MainMenu);
}

#[test]
fn game_starts_from_the_menu_only() {
    let mut game = seated_in_setup();
    assert_eq!(game.state(), AppState::Setup);
    assert_eq!(start_game(&mut game), Err(Rejection::WrongPhase));
    assert_eq!(game.state(), AppState::Setup);
}

#[test]
fn graveyard_is_laid_out_once_and_empty() {
    let mut game = seated_in_setup();
    assert_eq!(spawn_graveyard(&mut game), Ok(()));
    assert!(game.graveyard().unwrap().cards.is_empty());
    assert_eq!(spawn_graveyard(&mut game), Err(Rejection::AlreadySetUp));
}

#[test]
fn cards_in_order_lie_face_down_in_the_deck() {
    let mut game = seated_in_setup();
    let order = vec![(Suit::Gold, 7), (Suit::Cup, 12), (Suit::Sword, 1)];
    assert_eq!(spawn_cards_in_order(&mut game, &order), Ok(()));
    assert_eq!(game.cards().len(), 3);
    assert_eq!(game.deck().unwrap().cards_values, vec![0, 1, 2]);
    assert_eq!(
        game.card(1),
        Some(Card {
            value: 12,
            face_up: false,
            owner_id: None,
            position: CardPosition::Deck,
            suit: Suit::Cup,
            from_deck: false,
            selected: None,
        })
    );
    assert_eq!(game.card(3), None);
}

#[test]
fn cards_are_made_only_once() {
    let mut game = seated_in_setup();
    assert_eq!(spawn_cards(&mut game), Ok(()));
    assert_eq!(spawn_cards(&mut game), Err(Rejection::AlreadySetUp));
    assert_eq!(spawn_cards_in_order(&mut game, &new_deck()), Err(Rejection::AlreadySetUp));
    assert_eq!(game.cards().len(), 48);
}

#[test]
fn deck_has_48_cards_after_setup_and_40_after_the_deal() {
    let mut game = seated_in_setup();
    assert_eq!(spawn_graveyard(&mut game), Ok(()));
    assert_eq!(spawn_cards(&mut game), Ok(()));
    assert_eq!(game.cards().len(), 48);
    assert_eq!(game.deck_len(), 48);
    assert_eq!(zone_total(&game), 48);
    assert_eq!(deal_initial_hands(&mut game), Ok(()));
    assert_eq!(game.deck_len(), 40);
    assert_eq!(game.player(0).unwrap().hand.cards.len(), 4);
    assert_eq!(game.player(1).unwrap().hand.cards.len(), 4);
    assert_eq!(zone_total(&game), 48);
}

#[test]
fn shuffled_deck_holds_every_card_once() {
    let mut game = seated_in_setup();
    assert_eq!(spawn_cards(&mut game), Ok(()));
    for suit in [Suit::Coarse, Suit::Cup, Suit::Gold, Suit::Sword] {
        for value in 1..=12u8 {
            let count = game
                .cards()
                .iter()
                .filter(|card| card.suit == suit && card.value == value)
                .count();
            assert_eq!(count, 1);
        }
    }
    assert_eq!(game.deck().unwrap().cards_values, (0..48).collect::<Vec<usize>>());
}

#[test]
fn shuffled_deck_is_not_in_factory_order() {
    let mut game = seated_in_setup();
    assert_eq!(spawn_cards(&mut game), Ok(()));
    let order: Vec<(Suit, u8)> = game.cards().iter().map(|card| (card.suit, card.value)).collect();
    assert_ne!(order, new_deck());
}

#[test]
fn deal_gives_four_cards_each_in_seat_order() {
    let mut game = seated_in_setup();
    assert_eq!(spawn_cards_in_order(&mut game, &new_deck()), Ok(()));
    assert_eq!(deal_initial_hands(&mut game), Ok(()));
    assert_eq!(game.player(0).unwrap().hand.cards, vec![0, 1, 2, 3]);
    assert_eq!(game.player(1).unwrap().hand.cards, vec![4, 5, 6, 7]);
    assert_eq!(game.deck().unwrap().cards_values, (8..48).collect::<Vec<usize>>());
    for c in 0..8 {
        let card = game.card(c).unwrap();
        let p = c / 4;
        assert_eq!(card.position, CardPosition::Hand(p));
        assert_eq!(card.owner_id, Some(p));
        assert!(!card.from_deck);
    }
    for c in 8..48 {
        let card = game.card(c).unwrap();
        assert_eq!(card.position, CardPosition::Deck);
        assert_eq!(card.owner_id, None);
        assert!(!card.face_up);
    }
}

#[test]
fn deal_shows_two_cards_of_the_local_player_only() {
    let mut game = seated_in_setup();
    assert_eq!(spawn_cards_in_order(&mut game, &new_deck()), Ok(()));
    assert_eq!(deal_initial_hands(&mut game), Ok(()));
    let faces: Vec<bool> = (0..8).map(|c| game.card(c).unwrap().face_up).collect();
    assert_eq!(faces, vec![true, true, false, false, false, false, false, false]);
}

#[test]
fn deal_passes_over_a_player_when_the_deck_is_short() {
    let mut game = seated_in_setup();
    let order: Vec<(Suit, u8)> = new_deck().into_iter().take(6).collect();
    assert_eq!(spawn_cards_in_order(&mut game, &order), Ok(()));
    assert_eq!(deal_initial_hands(&mut game), Ok(()));
    assert_eq!(game.player(0).unwrap().hand.cards, vec![0, 1, 2, 3]);
    assert!(game.player(1).unwrap().hand.cards.is_empty());
    assert_eq!(game.deck().unwrap().cards_values, vec![4, 5]);
}

#[test]
fn deal_needs_a_deck() {
    let mut game = seated_in_setup();
    assert_eq!(deal_initial_hands(&mut game), Err(Rejection::NoDeck));
}

#[test]
fn deal_is_refused_while_hands_hold_cards() {
    let mut game = seated_in_setup();
    assert_eq!(spawn_cards_in_order(&mut game, &new_deck()), Ok(()));
    assert_eq!(deal_initial_hands(&mut game), Ok(()));
    assert_eq!(deal_initial_hands(&mut game), Err(Rejection::HandsNotEmpty));
    assert_eq!(game.deck_len(), 40);
    assert_eq!(game.player(0).unwrap().hand.cards, vec![0, 1, 2, 3]);
}

#[test]
fn first_turn_goes_to_the_first_seat() {
    let mut game = seated_in_setup();
    assert_eq!(start_turn_system(&mut game), Ok(()));
    assert_eq!(game.state(), AppState::PlayerTurn);
    assert_eq!(game.turn(), Some(Turn { current_player: 0, has_drawn_card: false }));
}

#[test]
fn first_turn_needs_a_player() {
    let mut game = Game::new();
    assert_eq!(start_game(&mut game), Ok(()));
    assert_eq!(start_turn_system(&mut game), Err(Rejection::NoPlayers));
    assert_eq!(game.state(), AppState::Setup);
    assert_eq!(game.turn(), None);
}

#[test]
fn leaving_the_game_clears_the_table_and_keeps_the_seats() {
    let mut game = seated_in_setup();
    assert_eq!(spawn_graveyard(&mut game), Ok(()));
    assert_eq!(spawn_cards(&mut game), Ok(()));
    assert_eq!(deal_initial_hands(&mut game), Ok(()));
    assert_eq!(start_turn_system(&mut game), Ok(()));
    assert_eq!(return_to_menu(&mut game), Ok(()));
    assert_eq!(game.state(), AppState::MainMenu);
    assert!(game.cards().is_empty());
    assert!(game.deck().is_none());
    assert!(game.graveyard().is_none());
    assert_eq!(game.turn(), None);
    assert_eq!(game.player_count(), 2);
    assert!(game.player(0).unwrap().hand.cards.is_empty());
    assert!(game.player(1).unwrap().hand.cards.is_empty());
    assert_eq!(return_to_menu(&mut game), Err(Rejection::WrongPhase));
}
