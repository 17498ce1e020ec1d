//! Drawing a card, from the deck or from the top of the graveyard.

use vstd::prelude::*;
use crate::card::{Card, CardPosition};
use crate::gamestate::{AppState, Game, GameView, Rejection};
use crate::turn_player::Turn;

verus! {

/// A card as it is once player `p` has drawn it.
pub open spec fn drawn_by(card: Card, p: usize, from_deck: bool) -> Card {
    Card {
        position: CardPosition::DrawnCard(p),
        owner_id: Some(p),
        face_up: true,
        from_deck,
        ..card
    }
}

/// What stands in the way of any draw by the current player, if anything.
pub open spec fn draw_refusal(s: GameView) -> Option<Rejection> {
    if s.state != AppState::PlayerTurn {
        Some(Rejection::WrongPhase)
    } else if s.effect.awaiting() {
        Some(Rejection::EffectPending)
    } else if s.turn->0.has_drawn_card {
        Some(Rejection::AlreadyDrewThisTurn)
    } else {
        None
    }
}

/// The card that a click on the deck draws, or why none is drawn.
pub open spec fn deck_click_result(s: GameView) -> Result<usize, Rejection> {
    if let Some(why) = draw_refusal(s) {
        Err(why)
    } else if s.deck is None {
        Err(Rejection::NoDeck)
    } else if s.deck->0.len() == 0 {
        Err(Rejection::DeckEmpty)
    } else {
        Ok(s.deck->0.first())
    }
}

/// The table after a click on the deck: the head of the deck becomes the
/// current player's drawn card, face up and eligible for its effect.
pub open spec fn after_deck_click(s: GameView) -> GameView {
    match deck_click_result(s) {
        Ok(c) => GameView {
            cards: s.cards.update(
                c as int,
                drawn_by(s.cards[c as int], s.turn->0.current_player, true),
            ),
            deck: Some(s.deck->0.remove(0)),
            turn: Some(Turn { has_drawn_card: true, ..s.turn->0 }),
            ..s
        },
        Err(_) => s,
    }
}

/// The card that a click on the graveyard draws, or why none is drawn.
pub open spec fn graveyard_click_result(s: GameView) -> Result<usize, Rejection> {
    if let Some(why) = draw_refusal(s) {
        Err(why)
    } else if s.graveyard is None {
        Err(Rejection::NoGraveyard)
    } else if s.graveyard->0.len() == 0 {
        Err(Rejection::GraveyardEmpty)
    } else {
        Ok(s.graveyard->0.last())
    }
}

/// The table after a click on the graveyard: its top card becomes the
/// current player's drawn card, face up but not eligible for its effect.
pub open spec fn after_graveyard_click(s: GameView) -> GameView {
    match graveyard_click_result(s) {
        Ok(c) => GameView {
            cards: s.cards.update(
                c as int,
                drawn_by(s.cards[c as int], s.turn->0.current_player, false),
            ),
            graveyard: Some(s.graveyard->0.drop_last()),
            turn: Some(Turn { has_drawn_card: true, ..s.turn->0 }),
            ..s
        },
        Err(_) => s,
    }
}

/// Drawing from the deck keeps the table well formed.
pub proof fn lemma_deck_click_wf(s: GameView)
    requires
        s.wf(),
    ensures
        after_deck_click(s).wf(),
        s.draws_on(after_deck_click(s)),
{
    let t = after_deck_click(s);
    if let Ok(c) = deck_click_result(s) {
        let d = s.deck->0;
        let d2 = d.remove(0);
        assert(d[0] == c);
        assert forall|i: int| 0 <= i < d2.len() implies d2[i] == d[i + 1] by {}
        assert(t.lists(d2, CardPosition::Deck));
        assert forall|x: int| 0 <= x < t.cards.len() implies t.card_wf(x) by {
            assert(s.card_wf(x));
            if x != c {
                if s.cards[x].position is Deck {
                    let i = choose|i: int| 0 <= i < d.len() && d[i] == x as usize;
                    assert(d2[i - 1] == x as usize);
                }
            }
        }
    }
}

/// Drawing from the graveyard keeps the table well formed.
pub proof fn lemma_graveyard_click_wf(s: GameView)
    requires
        s.wf(),
    ensures
        after_graveyard_click(s).wf(),
        s.plays_on(after_graveyard_click(s)),
{
    let t = after_graveyard_click(s);
    if let Ok(c) = graveyard_click_result(s) {
        let g = s.graveyard->0;
        let g2 = g.drop_last();
        assert(g[g.len() - 1] == c);
        assert(t.lists(g2, CardPosition::Graveyard));
        assert forall|x: int| 0 <= x < t.cards.len() implies t.card_wf(x) by {
            assert(s.card_wf(x));
            if x != c {
                if s.cards[x].position is Graveyard {
                    let i = choose|i: int| 0 <= i < g.len() && g[i] == x as usize;
                    assert(g2[i] == x as usize);
                }
            }
        }
    }
}

/// Draws the head of the deck for the current player.
///
/// The draw is refused, and nothing changes, outside a player's turn, while
/// an effect waits for a pick, when the player has already drawn this turn,
/// and when the deck is missing or empty.
pub fn handle_deck_click(game: &mut Game) -> (r: Result<usize, Rejection>)
    requires
        old(game)@.wf(),
    ensures
        r == deck_click_result(old(game)@),
        final(game)@ == after_deck_click(old(game)@),
        r is Err ==> final(game)@ == old(game)@,
        final(game)@.wf(),
{
    proof {
        lemma_deck_click_wf(game@);
    }
    if game.state != AppState::PlayerTurn {
        return Err(Rejection::WrongPhase);
    }
    let turn = game.turn.unwrap();
    if game.special_effect.is_awaiting() {
        return Err(Rejection::EffectPending);
    }
    if turn.has_drawn_card {
        return Err(Rejection::AlreadyDrewThisTurn);
    }
    let c = match &game.deck {
        None => {
            return Err(Rejection::NoDeck);
        },
        Some(deck) => {
            if deck.cards_values.len() == 0 {
                return Err(Rejection::DeckEmpty);
            }
            deck.cards_values[0]
        },
    };
    proof {
        let pile = game@.deck->0;
        assert(game@.lists(pile, CardPosition::Deck));
        assert(pile[0] == c);
        assert(pile.index_of(c) == 0);
    }
    game.move_to(c, CardPosition::DrawnCard(turn.current_player));
    game.cards[c].face_up = true;
    game.cards[c].from_deck = true;
    game.turn = Some(Turn { current_player: turn.current_player, has_drawn_card: true });
    assert(game@ =~~= after_deck_click(old(game)@));
    Ok(c)
}

/// Draws the top of the graveyard for the current player.
///
/// The draw is refused, and nothing changes, outside a player's turn, while
/// an effect waits for a pick, when the player has already drawn this turn,
/// and when the graveyard is missing or empty. A card drawn this way never
/// carries a usable effect.
pub fn handle_graveyard_click(game: &mut Game) -> (r: Result<usize, Rejection>)
    requires
        old(game)@.wf(),
    ensures
        r == graveyard_click_result(old(game)@),
        final(game)@ == after_graveyard_click(old(game)@),
        r is Err ==> final(game)@ == old(game)@,
        final(game)@.wf(),
{
    proof {
        lemma_graveyard_click_wf(game@);
    }
    if game.state != AppState::PlayerTurn {
        return Err(Rejection::WrongPhase);
    }
    let turn = game.turn.unwrap();
    if game.special_effect.is_awaiting() {
        return Err(Rejection::EffectPending);
    }
    if turn.has_drawn_card {
        return Err(Rejection::AlreadyDrewThisTurn);
    }
    let c = match &game.graveyard {
        None => {
            return Err(Rejection::NoGraveyard);
        },
        Some(graveyard) => {
            if graveyard.cards.len() == 0 {
                return Err(Rejection::GraveyardEmpty);
            }
            graveyard.cards[graveyard.cards.len() - 1]
        },
    };
    proof {
        let pile = game@.graveyard->0;
        assert(game@.lists(pile, CardPosition::Graveyard));
        assert(pile[pile.len() - 1] == c);
        assert(pile.index_of(c) == pile.len() - 1);
        assert(pile.remove(pile.len() - 1) =~= pile.drop_last());
    }
    game.move_to(c, CardPosition::DrawnCard(turn.current_player));
    game.cards[c].face_up = true;
    game.cards[c].from_deck = false;
    game.turn = Some(Turn { current_player: turn.current_player, has_drawn_card: true });
    assert(game@ =~~= after_graveyard_click(old(game)@));
    Ok(c)
}

} // verus!
