use card_table::card::{Card, CardPosition, PreviousCardPosition, PreviousFaceUp, Selected, Suit};
use card_table::deck::{new_deck, spawn_cards_in_order};
use card_table::draw::handle_deck_click;
use card_table::gamestate::{AppState, Game};
use card_table::graveyard::spawn_graveyard;
use card_table::hand::deal_initial_hands;
use card_table::menu::{
    button_click, button_hover, handle_button, handle_button_clicks, is_in_game, start_game,
    ButtonState, MenuButton,
};
use card_table::player::spawn_player;
use card_table::presentation::{
    card_visual, detect_flip, detect_movement, should_animate_movement, update_turn_indicator,
    FlipDetection, MoveTarget, MovementDetection,
};
use card_table::resolve::discard_card;
use card_table::turn_player::{start_turn_system, Turn};

fn table_in_play() -> Game {
    let mut game = Game::new();
    assert_eq!(spawn_player(&mut game), Ok(()));
    assert_eq!(start_game(&mut game), Ok(()));
    assert_eq!(spawn_graveyard(&mut game), Ok(()));
    assert_eq!(spawn_cards_in_order(&mut game, &new_deck()), Ok(()));
    assert_eq!(deal_initial_hands(&mut game), Ok(()));
    assert_eq!(start_turn_system(&mut game), Ok(()));
    game
}

fn card_at(position: CardPosition, face_up: bool) -> Card {
    Card {
        value: 5,
        face_up,
        owner_id: None,
        position,
        suit: Suit::Cup,
        from_deck: false,
        selected: None,
    }
}

#[test]
fn new_card_starts_in_the_deck() {
    assert_eq!(Card::new(Suit::Cup, 5), card_at(CardPosition::Deck, false));
}

#[test]
fn cards_of_the_waiting_player_are_dimmed() {
    let turn = Turn { current_player: 0, has_drawn_card: false };
    assert!(!update_turn_indicator(&card_at(CardPosition::Hand(0), false), &turn));
    assert!(update_turn_indicator(&card_at(CardPosition::Hand(1), false), &turn));
    assert!(!update_turn_indicator(&card_at(CardPosition::Deck, false), &turn));
    assert!(!update_turn_indicator(&card_at(CardPosition::Graveyard, true), &turn));
    assert!(!update_turn_indicator(&card_at(CardPosition::DrawnCard(1), true), &turn));
}

#[test]
fn selected_card_of_the_player_who_is_up_is_raised() {
    let turn = Turn { current_player: 1, has_drawn_card: false };
    let mut card = card_at(CardPosition::Hand(1), false);
    assert!(!card_visual(&card, &turn));
    card.selected = Some(Selected);
    assert!(card_visual(&card, &turn));
    card.position = CardPosition::Hand(0);
    assert!(!card_visual(&card, &turn));
    card.position = CardPosition::Graveyard;
    assert!(!card_visual(&card, &turn));
}

#[test]
fn flip_is_animated_when_a_hand_card_turns_up() {
    let card = card_at(CardPosition::Hand(0), true);
    let seen = Some(PreviousCardPosition(CardPosition::Hand(0)));
    assert_eq!(
        detect_flip(&card, seen, Some(PreviousFaceUp(false)), false),
        FlipDetection {
            animate: true,
            previous_position: seen,
            previous_face_up: Some(PreviousFaceUp(true)),
        }
    );
    assert!(!detect_flip(&card, seen, Some(PreviousFaceUp(true)), false).animate);
    let drawn = card_at(CardPosition::DrawnCard(0), true);
    assert!(!detect_flip(&drawn, seen, Some(PreviousFaceUp(false)), false).animate);
    let down = card_at(CardPosition::Hand(0), false);
    assert!(!detect_flip(&down, seen, Some(PreviousFaceUp(true)), false).animate);
}

#[test]
fn flip_detection_first_remembers_the_card() {
    let card = card_at(CardPosition::Hand(0), true);
    assert_eq!(
        detect_flip(&card, None, None, false),
        FlipDetection {
            animate: false,
            previous_position: Some(PreviousCardPosition(CardPosition::Hand(0))),
            previous_face_up: Some(PreviousFaceUp(true)),
        }
    );
    let stale = Some(PreviousCardPosition(CardPosition::Deck));
    assert_eq!(
        detect_flip(&card, stale, None, false),
        FlipDetection {
            animate: false,
            previous_position: stale,
            previous_face_up: Some(PreviousFaceUp(true)),
        }
    );
}

#[test]
fn flip_detection_leaves_an_animating_card_alone() {
    let card = card_at(CardPosition::Hand(0), true);
    let seen = Some(PreviousCardPosition(CardPosition::Deck));
    assert_eq!(
        detect_flip(&card, seen, Some(PreviousFaceUp(false)), true),
        FlipDetection {
            animate: false,
            previous_position: seen,
            previous_face_up: Some(PreviousFaceUp(false)),
        }
    );
}

#[test]
fn five_moves_are_animated() {
    let zones = [
        CardPosition::Deck,
        CardPosition::Hand(0),
        CardPosition::Graveyard,
        CardPosition::DrawnCard(0),
    ];
    let mut animated = Vec::new();
    for from in zones {
        for to in zones {
            if should_animate_movement(from, to) {
                animated.push((from, to));
            }
        }
    }
    assert_eq!(
        animated,
        vec![
            (CardPosition::Deck, CardPosition::DrawnCard(0)),
            (CardPosition::Hand(0), CardPosition::Graveyard),
            (CardPosition::Graveyard, CardPosition::DrawnCard(0)),
            (CardPosition::DrawnCard(0), CardPosition::Hand(0)),
            (CardPosition::DrawnCard(0), CardPosition::Graveyard),
        ]
    );
    assert!(should_animate_movement(CardPosition::DrawnCard(1), CardPosition::Hand(0)));
}

#[test]
fn drawn_card_moves_to_the_drawn_spot() {
    let mut game = table_in_play();
    assert_eq!(handle_deck_click(&mut game), Ok(8));
    let seen = Some(PreviousCardPosition(CardPosition::Deck));
    assert_eq!(
        detect_movement(&game, 8, seen, true, false, false),
        MovementDetection {
            animate: true,
            target: MoveTarget::DrawnSpot,
            remember_position: true,
            remember_place: false,
        }
    );
}

#[test]
fn discarded_card_moves_onto_the_pile_at_its_height() {
    let mut game = table_in_play();
    for drawn in [8, 9, 10] {
        assert_eq!(handle_deck_click(&mut game), Ok(drawn));
        assert_eq!(discard_card(&mut game, drawn), Ok(()));
    }
    let seen = Some(PreviousCardPosition(CardPosition::DrawnCard(0)));
    let found = detect_movement(&game, 10, seen, true, true, false);
    assert_eq!(
        found,
        MovementDetection {
            animate: true,
            target: MoveTarget::GraveyardStack(2),
            remember_position: true,
            remember_place: true,
        }
    );
    assert_eq!(
        detect_movement(&game, 8, seen, true, false, false).target,
        MoveTarget::GraveyardStack(0)
    );
}

#[test]
fn movement_detection_first_remembers_the_card() {
    let game = table_in_play();
    let idle = MovementDetection {
        animate: false,
        target: MoveTarget::Stay,
        remember_position: false,
        remember_place: false,
    };
    assert_eq!(
        detect_movement(&game, 0, None, false, false, false),
        MovementDetection { remember_position: true, remember_place: true, ..idle }
    );
    let seen = Some(PreviousCardPosition(CardPosition::Deck));
    assert_eq!(
        detect_movement(&game, 0, seen, false, true, false),
        MovementDetection { remember_place: true, ..idle }
    );
    assert_eq!(detect_movement(&game, 0, seen, true, true, true), idle);
}

#[test]
fn deal_and_rest_are_not_animated_as_moves() {
    let game = table_in_play();
    let dealt = detect_movement(
        &game,
        0,
        Some(PreviousCardPosition(CardPosition::Deck)),
        true,
        true,
        false,
    );
    assert_eq!(
        dealt,
        MovementDetection {
            animate: false,
            target: MoveTarget::Stay,
            remember_position: true,
            remember_place: true,
        }
    );
    let resting = detect_movement(
        &game,
        0,
        Some(PreviousCardPosition(CardPosition::Hand(0))),
        true,
        false,
        false,
    );
    assert_eq!(
        resting,
        MovementDetection {
            animate: false,
            target: MoveTarget::Stay,
            remember_position: false,
            remember_place: false,
        }
    );
}

#[test]
fn button_follows_the_pointer() {
    assert_eq!(button_hover(ButtonState::Normal, true, false), ButtonState::Hovered);
    assert_eq!(button_hover(ButtonState::Normal, false, false), ButtonState::Normal);
    assert_eq!(button_hover(ButtonState::Hovered, false, false), ButtonState::Normal);
    assert_eq!(button_hover(ButtonState::Hovered, true, true), ButtonState::Hovered);
    assert_eq!(button_hover(ButtonState::Pressed, false, true), ButtonState::Pressed);
    assert_eq!(button_hover(ButtonState::Pressed, true, true), ButtonState::Pressed);
    assert_eq!(button_hover(ButtonState::Pressed, false, false), ButtonState::Pressed);
    assert_eq!(button_hover(ButtonState::Normal, true, true), ButtonState::Hovered);
}

#[test]
fn button_fires_on_release_over_it() {
    assert_eq!(
        button_click(ButtonState::Hovered, true, false, true),
        (ButtonState::Pressed, false)
    );
    assert_eq!(
        button_click(ButtonState::Hovered, true, false, false),
        (ButtonState::Hovered, false)
    );
    assert_eq!(button_click(ButtonState::Pressed, false, true, true), (ButtonState::Normal, true));
    assert_eq!(
        button_click(ButtonState::Pressed, false, true, false),
        (ButtonState::Normal, false)
    );
    assert_eq!(
        button_click(ButtonState::Pressed, false, false, true),
        (ButtonState::Pressed, false)
    );
    assert_eq!(button_click(ButtonState::Normal, true, true, true), (ButtonState::Pressed, false));
}

#[test]
fn play_button_starts_the_game() {
    let mut game = Game::new();
    let pressed =
        handle_button_clicks(&mut game, MenuButton::Play, ButtonState::Hovered, true, false, true);
    assert_eq!(pressed, (ButtonState::Pressed, false));
    assert_eq!(game.state(), AppState::MainMenu);
    let missed =
        handle_button_clicks(&mut game, MenuButton::Play, ButtonState::Pressed, false, true, false);
    assert_eq!(missed, (ButtonState::Normal, false));
    assert_eq!(game.state(), AppState::MainMenu);
    let released =
        handle_button_clicks(&mut game, MenuButton::Play, ButtonState::Pressed, false, true, true);
    assert_eq!(released, (ButtonState::Normal, false));
    assert_eq!(game.state(), AppState::Setup);
}

#[test]
fn exit_button_asks_to_exit() {
    let mut game = Game::new();
    let released =
        handle_button_clicks(&mut game, MenuButton::Exit, ButtonState::Pressed, false, true, true);
    assert_eq!(released, (ButtonState::Normal, true));
    assert_eq!(game.state(), AppState::MainMenu);
}

#[test]
fn back_button_leaves_the_game() {
    let mut game = table_in_play();
    assert_eq!(handle_button(&mut game, ButtonState::Hovered, true, false, true), ButtonState::Pressed);
    assert_eq!(game.state(), AppState::PlayerTurn);
    assert_eq!(handle_button(&mut game, ButtonState::Pressed, false, true, true), ButtonState::Normal);
    assert_eq!(game.state(), AppState::MainMenu);
    assert!(game.cards().is_empty());
}

#[test]
fn game_is_on_outside_the_menu() {
    assert!(!is_in_game(AppState::MainMenu));
    assert!(is_in_game(AppState::Setup));
    assert!(is_in_game(AppState::PlayerTurn));
    assert!(is_in_game(AppState::RoundEnd));
}
