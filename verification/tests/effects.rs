use card_table::card::{CardPosition, Suit};
use card_table::click::{card_selection, Click, ClickOutcome};
use card_table::deck::{new_deck, spawn_cards_in_order};
use card_table::draw::{handle_deck_click, handle_graveyard_click};
use card_table::effect::{
    handle_target_click, resolve_reveal, reveal_effect, shuffle_effect, swap_effect,
};
use card_table::gamestate::{Game, Rejection};
use card_table::graveyard::spawn_graveyard;
use card_table::hand::deal_initial_hands;
use card_table::menu::start_game;
use card_table::player::spawn_player;
use card_table::resolve::{card_swap, discard_card};
use card_table::special_cards::{
    detect_special_card, handle_special_effects, special_effect_of, EffectPrompt,
    SpecialCardEffect, SpecialEffect,
};
use card_table::turn_player::{end_round_system, Turn};

/// The full deck with the given cards first and the others after them in
/// factory order.
fn deck_headed_by(head: &[(Suit, u8)]) -> Vec<(Suit, u8)> {
    let mut order: Vec<(Suit, u8)> = head.to_vec();
    for card in new_deck() {
        if !head.contains(&card) {
            order.push(card);
        }
    }
    assert_eq!(order.len(), 48);
    order
}

/// A table in play whose deck, after the deal, is headed by the given
/// cards: card 8 is the first of them. Player 0 holds the coarse 1 to 4 as
/// cards 0 to 3, player 1 the cups 1 to 4 as cards 4 to 7.
fn table_drawing(draws: &[(Suit, u8)]) -> Game {
    let mut head = vec![
        (Suit::Coarse, 1),
        (Suit::Coarse, 2),
        (Suit::Coarse, 3),
        (Suit::Coarse, 4),
        (Suit::Cup, 1),
        (Suit::Cup, 2),
        (Suit::Cup, 3),
        (Suit::Cup, 4),
    ];
    head.extend_from_slice(draws);
    let mut game = Game::new();
    assert_eq!(spawn_player(&mut game), Ok(()));
    assert_eq!(start_game(&mut game), Ok(()));
    assert_eq!(spawn_graveyard(&mut game), Ok(()));
    assert_eq!(spawn_cards_in_order(&mut game, &deck_headed_by(&head)), Ok(()));
    assert_eq!(deal_initial_hands(&mut game), Ok(()));
    assert_eq!(card_table::turn_player::start_turn_system(&mut game), Ok(()));
    game
}

fn click_card(c: usize) -> Click {
    Click { card: Some(c), on_deck: false, on_graveyard: false }
}

fn faces(game: &Game, cards: &[usize]) -> Vec<bool> {
    cards.iter().map(|c| game.card(*c).unwrap().face_up).collect()
}

#[test]
fn values_7_9_and_11_carry_the_effects() {
    assert_eq!(special_effect_of(7), Some(SpecialEffect::Swap));
    assert_eq!(special_effect_of(9), Some(SpecialEffect::Reveal));
    assert_eq!(special_effect_of(11), Some(SpecialEffect::Shuffle));
    for value in [0u8, 1, 6, 8, 10, 12, 13, 255] {
        assert_eq!(special_effect_of(value), None);
    }
}

#[test]
fn reveal_on_a_face_down_hand_turns_one_card_up() {
    let mut game = table_drawing(&[(Suit::Gold, 1), (Suit::Gold, 9)]);
    assert_eq!(handle_deck_click(&mut game), Ok(8));
    assert_eq!(discard_card(&mut game, 8), Ok(()));
    assert_eq!(faces(&game, &[4, 5, 6, 7]), vec![false, false, false, false]);
    assert_eq!(handle_deck_click(&mut game), Ok(9));
    assert_eq!(detect_special_card(&mut game), Ok(SpecialEffect::Reveal));
    assert_eq!(handle_special_effects(&game), EffectPrompt::RevealActive);
    let revealed = reveal_effect(&mut game).unwrap().unwrap();
    assert!([4, 5, 6, 7].contains(&revealed));
    let up = faces(&game, &[4, 5, 6, 7]).into_iter().filter(|face| *face).count();
    assert_eq!(up, 1);
    assert!(game.card(revealed).unwrap().face_up);
    assert!(!game.card(9).unwrap().from_deck);
    assert_eq!(game.special_effect(), SpecialCardEffect::default());
    assert_eq!(game.turn(), Some(Turn { current_player: 1, has_drawn_card: true }));
    assert_eq!(game.card(9).unwrap().position, CardPosition::DrawnCard(1));
}

#[test]
fn reveal_picks_among_the_face_down_cards_in_hand_order() {
    let mut game = table_drawing(&[(Suit::Gold, 9)]);
    assert_eq!(handle_deck_click(&mut game), Ok(8));
    assert_eq!(detect_special_card(&mut game), Ok(SpecialEffect::Reveal));
    assert_eq!(game.face_down_cards(), vec![2, 3]);
    assert_eq!(resolve_reveal(&mut game, 2), Err(Rejection::NoSuchChoice));
    assert_eq!(faces(&game, &[0, 1, 2, 3]), vec![true, true, false, false]);
    assert_eq!(resolve_reveal(&mut game, 1), Ok(Some(3)));
    assert_eq!(faces(&game, &[0, 1, 2, 3]), vec![true, true, false, true]);
    assert_eq!(game.special_effect(), SpecialCardEffect::default());
}

#[test]
fn reveal_is_used_once() {
    let mut game = table_drawing(&[(Suit::Gold, 9)]);
    assert_eq!(handle_deck_click(&mut game), Ok(8));
    assert_eq!(detect_special_card(&mut game), Ok(SpecialEffect::Reveal));
    assert_eq!(resolve_reveal(&mut game, 0), Ok(Some(2)));
    assert_eq!(detect_special_card(&mut game), Err(Rejection::NoEligibleCard));
    assert_eq!(resolve_reveal(&mut game, 0), Err(Rejection::NoEffect));
    assert_eq!(reveal_effect(&mut game), Err(Rejection::NoEffect));
}

#[test]
fn reveal_with_nothing_to_turn_is_still_consumed() {
    let draws = [
        (Suit::Gold, 9),
        (Suit::Gold, 1),
        (Suit::Sword, 9),
        (Suit::Gold, 2),
        (Suit::Cup, 9),
    ];
    let mut game = table_drawing(&draws);
    for expected in [Some(2), Some(3)] {
        let drawn = handle_deck_click(&mut game).unwrap();
        assert_eq!(detect_special_card(&mut game), Ok(SpecialEffect::Reveal));
        assert_eq!(resolve_reveal(&mut game, 0), Ok(expected));
        assert_eq!(discard_card(&mut game, drawn), Ok(()));
        let other = handle_deck_click(&mut game).unwrap();
        assert_eq!(discard_card(&mut game, other), Ok(()));
    }
    assert_eq!(faces(&game, &[0, 1, 2, 3]), vec![true, true, true, true]);
    assert_eq!(handle_deck_click(&mut game), Ok(12));
    assert_eq!(detect_special_card(&mut game), Ok(SpecialEffect::Reveal));
    assert!(game.face_down_cards().is_empty());
    assert_eq!(reveal_effect(&mut game), Ok(None));
    assert_eq!(game.special_effect(), SpecialCardEffect::default());
    assert!(!game.card(12).unwrap().from_deck);
}

#[test]
fn activation_needs_a_power_card_from_the_deck() {
    let mut game = table_drawing(&[(Suit::Gold, 1)]);
    assert_eq!(detect_special_card(&mut game), Err(Rejection::NoEligibleCard));
    assert_eq!(handle_deck_click(&mut game), Ok(8));
    assert_eq!(detect_special_card(&mut game), Err(Rejection::NotSpecialCard));
    assert_eq!(game.special_effect(), SpecialCardEffect::default());
    assert_eq!(end_round_system(&mut game), Ok(()));
    assert_eq!(detect_special_card(&mut game), Err(Rejection::WrongPhase));
}

#[test]
fn power_card_from_the_graveyard_carries_no_effect() {
    for value in [7u8, 9, 11] {
        let mut game = table_drawing(&[(Suit::Gold, value)]);
        assert_eq!(handle_deck_click(&mut game), Ok(8));
        assert!(game.card(8).unwrap().from_deck);
        assert_eq!(discard_card(&mut game, 8), Ok(()));
        assert_eq!(handle_graveyard_click(&mut game), Ok(8));
        assert_eq!(game.card(8).unwrap().value, value);
        assert!(!game.card(8).unwrap().from_deck);
        assert_eq!(detect_special_card(&mut game), Err(Rejection::NoEligibleCard));
        assert_eq!(game.special_effect(), SpecialCardEffect::default());
    }
}

#[test]
fn power_card_from_the_deck_carries_its_effect() {
    let kinds = [(7u8, SpecialEffect::Swap), (9, SpecialEffect::Reveal), (11, SpecialEffect::Shuffle)];
    for (value, kind) in kinds {
        let mut game = table_drawing(&[(Suit::Gold, value)]);
        assert_eq!(handle_deck_click(&mut game), Ok(8));
        assert_eq!(detect_special_card(&mut game), Ok(kind));
        let effect = game.special_effect();
        assert_eq!(effect.card_entity, Some(8));
        assert_eq!(effect.effect_type, Some(kind));
        assert_eq!(effect.awaiting_target, kind != SpecialEffect::Reveal);
        assert_eq!(effect.awaiting_own_card, kind == SpecialEffect::Swap);
        assert_eq!(effect.target_player, None);
        assert_eq!(effect.target_card, None);
        assert_eq!(effect.own_card, None);
    }
}

#[test]
fn card_swapped_into_the_hand_loses_its_effect_for_good() {
    let mut game = table_drawing(&[(Suit::Gold, 9), (Suit::Gold, 1), (Suit::Gold, 2)]);
    assert_eq!(handle_deck_click(&mut game), Ok(8));
    assert_eq!(card_swap(&mut game, 0), Ok(8));
    assert_eq!(handle_deck_click(&mut game), Ok(9));
    assert_eq!(discard_card(&mut game, 9), Ok(()));
    assert_eq!(handle_deck_click(&mut game), Ok(10));
    assert_eq!(card_swap(&mut game, 8), Ok(10));
    assert_eq!(handle_graveyard_click(&mut game), Ok(8));
    assert_eq!(game.card(8).unwrap().value, 9);
    assert_eq!(detect_special_card(&mut game), Err(Rejection::NoEligibleCard));
}

#[test]
fn only_one_effect_at_a_time() {
    let mut game = table_drawing(&[(Suit::Gold, 11)]);
    assert_eq!(handle_deck_click(&mut game), Ok(8));
    assert_eq!(detect_special_card(&mut game), Ok(SpecialEffect::Shuffle));
    let pending = game.special_effect();
    assert_eq!(detect_special_card(&mut game), Err(Rejection::EffectAlreadyPending));
    assert_eq!(game.special_effect(), pending);
}

#[test]
fn shuffle_waits_for_a_rival_card() {
    let mut game = table_drawing(&[(Suit::Gold, 11)]);
    assert_eq!(handle_deck_click(&mut game), Ok(8));
    assert_eq!(detect_special_card(&mut game), Ok(SpecialEffect::Shuffle));
    assert_eq!(handle_special_effects(&game), EffectPrompt::ShuffleAwaitingTarget);
    assert_eq!(shuffle_effect(&mut game), Err(Rejection::EffectPending));
    assert_eq!(card_selection(&mut game, click_card(2), 0), Err(Rejection::WrongTargetOwner));
    assert_eq!(card_selection(&mut game, click_card(8), 0), Err(Rejection::CardNotInHand));
    assert_eq!(card_selection(&mut game, click_card(20), 0), Err(Rejection::CardNotInHand));
    assert_eq!(card_selection(&mut game, click_card(48), 0), Err(Rejection::NoSuchCard));
    assert!(game.special_effect().awaiting_target);
    assert_eq!(card_selection(&mut game, click_card(6), 0), Ok(ClickOutcome::Picked));
    let effect = game.special_effect();
    assert!(!effect.awaiting_target);
    assert_eq!(effect.target_card, Some(6));
    assert_eq!(effect.target_player, Some(1));
    assert_eq!(handle_special_effects(&game), EffectPrompt::ShuffleReady);
}

#[test]
fn draw_and_discard_are_refused_while_an_effect_waits() {
    let mut game = table_drawing(&[(Suit::Gold, 11)]);
    assert_eq!(handle_deck_click(&mut game), Ok(8));
    assert_eq!(detect_special_card(&mut game), Ok(SpecialEffect::Shuffle));
    assert_eq!(discard_card(&mut game, 8), Err(Rejection::EffectPending));
    assert_eq!(card_swap(&mut game, 1), Err(Rejection::EffectPending));
    assert_eq!(handle_deck_click(&mut game), Err(Rejection::EffectPending));
    assert_eq!(handle_graveyard_click(&mut game), Err(Rejection::EffectPending));
    assert_eq!(
        card_selection(&mut game, Click { card: None, on_deck: true, on_graveyard: false }, 0),
        Err(Rejection::EffectPending)
    );
    assert_eq!(card_table::turn_player::next_turn_system(&mut game), Err(Rejection::EffectPending));
    assert_eq!(game.card(8).unwrap().position, CardPosition::DrawnCard(0));
    assert_eq!(game.turn(), Some(Turn { current_player: 0, has_drawn_card: true }));
}

#[test]
fn shuffle_turns_the_target_hand_down_and_rearranges_it() {
    let mut game = table_drawing(&[(Suit::Gold, 1), (Suit::Gold, 11)]);
    assert_eq!(handle_deck_click(&mut game), Ok(8));
    assert_eq!(discard_card(&mut game, 8), Ok(()));
    assert_eq!(handle_deck_click(&mut game), Ok(9));
    assert_eq!(detect_special_card(&mut game), Ok(SpecialEffect::Shuffle));
    assert_eq!(handle_target_click(&mut game, 1), Ok(()));
    assert_eq!(faces(&game, &[0, 1, 2, 3]), vec![true, true, false, false]);
    let mut order = shuffle_effect(&mut game).unwrap().unwrap();
    order.sort();
    assert_eq!(order, vec![0, 1, 2, 3]);
    assert_eq!(faces(&game, &[0, 1, 2, 3]), vec![false, false, false, false]);
    assert_eq!(game.player(0).unwrap().hand.cards, vec![0, 1, 2, 3]);
    for c in 0..4 {
        assert_eq!(game.card(c).unwrap().position, CardPosition::Hand(0));
        assert_eq!(game.card(c).unwrap().owner_id, Some(0));
    }
    assert!(!game.card(9).unwrap().from_deck);
    assert_eq!(game.special_effect(), SpecialCardEffect::default());
    assert_eq!(game.turn(), Some(Turn { current_player: 1, has_drawn_card: true }));
    assert_eq!(shuffle_effect(&mut game), Err(Rejection::NoEffect));
}

#[test]
fn swap_collects_a_rival_card_and_then_an_own_card() {
    let mut game = table_drawing(&[(Suit::Gold, 7)]);
    assert_eq!(handle_deck_click(&mut game), Ok(8));
    assert_eq!(detect_special_card(&mut game), Ok(SpecialEffect::Swap));
    assert_eq!(handle_special_effects(&game), EffectPrompt::SwapAwaitingTarget);
    assert_eq!(swap_effect(&mut game), Err(Rejection::EffectPending));
    assert_eq!(handle_target_click(&mut game, 2), Err(Rejection::WrongTargetOwner));
    assert_eq!(handle_target_click(&mut game, 5), Ok(()));
    assert_eq!(handle_special_effects(&game), EffectPrompt::SwapAwaitingOwnCard);
    assert_eq!(game.special_effect().target_card, Some(5));
    assert_eq!(game.special_effect().target_player, None);
    assert_eq!(swap_effect(&mut game), Err(Rejection::EffectPending));
    assert_eq!(handle_target_click(&mut game, 6), Err(Rejection::WrongTargetOwner));
    assert_eq!(handle_target_click(&mut game, 2), Ok(()));
    assert_eq!(handle_special_effects(&game), EffectPrompt::SwapReady);
    assert_eq!(game.special_effect().own_card, Some(2));
    assert!(!game.special_effect().is_awaiting());
    assert_eq!(handle_target_click(&mut game, 3), Err(Rejection::NoEffect));
}

#[test]
fn swap_exchanges_the_two_cards_between_the_hands() {
    let mut game = table_drawing(&[(Suit::Gold, 7)]);
    assert_eq!(handle_deck_click(&mut game), Ok(8));
    assert_eq!(detect_special_card(&mut game), Ok(SpecialEffect::Swap));
    assert_eq!(handle_target_click(&mut game, 5), Ok(()));
    assert_eq!(handle_target_click(&mut game, 0), Ok(()));
    assert_eq!(swap_effect(&mut game), Ok(Some((5, 0))));
    let arrived = game.card(5).unwrap();
    assert_eq!(arrived.position, CardPosition::Hand(0));
    assert_eq!(arrived.owner_id, Some(0));
    assert!(!arrived.face_up);
    let departed = game.card(0).unwrap();
    assert_eq!(departed.position, CardPosition::Hand(1));
    assert_eq!(departed.owner_id, Some(1));
    assert!(!departed.face_up);
    assert_eq!(game.player(0).unwrap().hand.cards, vec![1, 2, 3, 5]);
    assert_eq!(game.player(1).unwrap().hand.cards, vec![4, 6, 7, 0]);
    assert!(!game.card(8).unwrap().from_deck);
    assert_eq!(game.card(8).unwrap().position, CardPosition::DrawnCard(0));
    assert_eq!(game.special_effect(), SpecialCardEffect::default());
    assert_eq!(game.turn(), Some(Turn { current_player: 0, has_drawn_card: true }));
    assert_eq!(swap_effect(&mut game), Err(Rejection::NoEffect));
}

#[test]
fn swap_is_abandoned_when_a_pick_has_left_the_hands() {
    let mut game = table_drawing(&[(Suit::Gold, 7), (Suit::Gold, 1)]);
    assert_eq!(handle_deck_click(&mut game), Ok(8));
    assert_eq!(detect_special_card(&mut game), Ok(SpecialEffect::Swap));
    assert_eq!(handle_target_click(&mut game, 5), Ok(()));
    assert_eq!(handle_target_click(&mut game, 0), Ok(()));
    assert_eq!(discard_card(&mut game, 8), Ok(()));
    assert_eq!(handle_deck_click(&mut game), Ok(9));
    assert_eq!(card_swap(&mut game, 5), Ok(9));
    assert_eq!(game.card(5).unwrap().position, CardPosition::Graveyard);
    let hands_before = (
        game.player(0).unwrap().hand.cards.clone(),
        game.player(1).unwrap().hand.cards.clone(),
    );
    assert_eq!(swap_effect(&mut game), Ok(None));
    assert_eq!(game.special_effect(), SpecialCardEffect::default());
    assert_eq!(game.card(5).unwrap().position, CardPosition::Graveyard);
    assert_eq!(game.card(0).unwrap().position, CardPosition::Hand(0));
    let hands_after = (
        game.player(0).unwrap().hand.cards.clone(),
        game.player(1).unwrap().hand.cards.clone(),
    );
    assert_eq!(hands_after, hands_before);
}

#[test]
fn effects_resolve_only_in_a_turn() {
    let mut game = table_drawing(&[(Suit::Gold, 7)]);
    assert_eq!(handle_deck_click(&mut game), Ok(8));
    assert_eq!(detect_special_card(&mut game), Ok(SpecialEffect::Swap));
    assert_eq!(end_round_system(&mut game), Ok(()));
    assert_eq!(reveal_effect(&mut game), Err(Rejection::WrongPhase));
    assert_eq!(resolve_reveal(&mut game, 0), Err(Rejection::WrongPhase));
    assert_eq!(shuffle_effect(&mut game), Err(Rejection::WrongPhase));
    assert_eq!(swap_effect(&mut game), Err(Rejection::WrongPhase));
    assert_eq!(handle_target_click(&mut game, 5), Err(Rejection::WrongPhase));
}

#[test]
fn no_effect_in_progress_prompts_nothing() {
    let game = table_drawing(&[(Suit::Gold, 7)]);
    assert_eq!(handle_special_effects(&game), EffectPrompt::Nothing);
    assert!(!game.special_effect().is_pending());
    assert!(!game.special_effect().is_awaiting());
}
