//! What a click means: the dispatch from pointer input to the rules.

use vstd::prelude::*;
use crate::card::{Card, CardPosition, DoubleClick, Selected};
use crate::draw::{
    after_deck_click, after_graveyard_click, deck_click_result, graveyard_click_result,
    handle_deck_click, handle_graveyard_click, lemma_deck_click_wf, lemma_graveyard_click_wf,
};
use crate::effect::{
    after_target_click, handle_target_click, lemma_target_click_wf, target_click_result,
};
use crate::gamestate::{AppState, Game, GameView, Rejection};
use crate::resolve::{
    after_discard, after_swap, card_swap, discard_card, discard_result, lemma_deselected_wf,
    lemma_discard_wf, lemma_swap_wf, swap_result,
};

verus! {

/// What the pointer hit, as the presentation layer reports it: the card
/// under it, if any, and whether it lies on the deck or on the graveyard.
#[derive(Clone, Copy, Debug, PartialEq, Eq)]
pub struct Click {
    pub card: Option<usize>,
    pub on_deck: bool,
    pub on_graveyard: bool,
}

/// What a click did.
#[derive(Clone, Copy, Debug, PartialEq, Eq)]
pub enum ClickOutcome {
    /// The card was accepted as the pick an effect was waiting for.
    Picked,
    /// The current player drew this card.
    Drew(usize),
    /// The current player discarded the drawn card.
    Discarded,
    /// The current player swapped the drawn card into the hand.
    Swapped,
    /// The card is now the selected one.
    Selected,
    /// The click hit nothing; no card is selected any more.
    Deselected,
}

/// Whether a click on `clicked` at time `now` completes a double click: the
/// last single click hit the same card, no longer ago than the time limit.
pub open spec fn is_double_click(memory: DoubleClick, clicked: usize, now: u64) -> bool {
    memory.last_card == Some(clicked) && now <= memory.last_click_time + memory.time_limit
}

/// Whether a click on `clicked` at time `now` completes a double click.
pub fn detect_double_click(memory: &DoubleClick, clicked: usize, now: u64) -> (r: bool)
    ensures
        r == is_double_click(*memory, clicked, now),
{
    match memory.last_card {
        Some(last) => last == clicked && (now <= memory.last_click_time || now
            - memory.last_click_time <= memory.time_limit),
        None => false,
    }
}

/// The table after card `clicked` was singled out at time `now`: it alone
/// is selected, and the click is remembered.
pub open spec fn after_select(s: GameView, clicked: usize, now: u64) -> GameView {
    GameView {
        cards: s.deselected().cards.update(
            clicked as int,
            Card { selected: Some(Selected), ..s.cards[clicked as int] },
        ),
        double_click: DoubleClick {
            last_card: Some(clicked),
            last_click_time: now,
            ..s.double_click
        },
        ..s
    }
}

/// What a click on card `clicked` at time `now` does, or why it is refused.
/// A click on the current player's drawn card discards it, whatever the
/// timing; a double click on any other card asks for a swap; a single click
/// selects.
pub open spec fn card_click_result(s: GameView, clicked: usize, now: u64) -> Result<
    ClickOutcome,
    Rejection,
> {
    if s.state != AppState::PlayerTurn {
        Err(Rejection::WrongPhase)
    } else if !s.has_card(clicked) {
        Err(Rejection::NoSuchCard)
    } else if s.cards[clicked as int].position == CardPosition::DrawnCard(s.current_player()) {
        match discard_result(s, clicked) {
            Ok(_) => Ok(ClickOutcome::Discarded),
            Err(why) => Err(why),
        }
    } else if is_double_click(s.double_click, clicked, now) {
        match swap_result(s, clicked) {
            Ok(_) => Ok(ClickOutcome::Swapped),
            Err(why) => Err(why),
        }
    } else {
        Ok(ClickOutcome::Selected)
    }
}

/// The table after a click on card `clicked` at time `now`.
pub open spec fn after_card_click(s: GameView, clicked: usize, now: u64) -> GameView {
    match card_click_result(s, clicked, now) {
        Ok(ClickOutcome::Discarded) => after_discard(s, clicked),
        Ok(ClickOutcome::Swapped) => after_swap(s, clicked),
        Ok(ClickOutcome::Selected) => after_select(s, clicked, now),
        _ => s,
    }
}

/// Selecting a card keeps the table well formed.
pub proof fn lemma_select_wf(s: GameView, clicked: usize, now: u64)
    requires
        s.wf(),
        s.has_card(clicked),
    ensures
        after_select(s, clicked, now).wf(),
        s.plays_on(after_select(s, clicked, now)),
{
    lemma_deselected_wf(s);
    let u = s.deselected();
    let t = after_select(s, clicked, now);
    assert forall|x: int| 0 <= x < t.cards.len() implies t.card_wf(x) by {
        assert(u.card_wf(x));
    }
    assert forall|p: int| 0 <= p < t.players.len() implies t.lists(
        t.players[p].hand,
        CardPosition::Hand(p as usize),
    ) by {
        assert(u.lists(u.players[p].hand, CardPosition::Hand(p as usize)));
    }
}

/// A click on a card keeps the table well formed.
pub proof fn lemma_card_click_wf(s: GameView, clicked: usize, now: u64)
    requires
        s.wf(),
    ensures
        after_card_click(s, clicked, now).wf(),
        card_click_result(s, clicked, now) is Err ==> after_card_click(s, clicked, now) == s,
        s.plays_on(after_card_click(s, clicked, now)),
{
    match card_click_result(s, clicked, now) {
        Ok(ClickOutcome::Discarded) => {
            lemma_discard_wf(s, clicked);
        },
        Ok(ClickOutcome::Swapped) => {
            lemma_swap_wf(s, clicked);
        },
        Ok(ClickOutcome::Selected) => {
            lemma_select_wf(s, clicked, now);
        },
        _ => {},
    }
}

/// Handles a click on card `clicked` at time `now`, in milliseconds.
///
/// A click on the current player's drawn card discards it. Otherwise a
/// second click on the same card within the double-click limit swaps the
/// drawn card for it, and any other click selects the card: it becomes the
/// one selected card and the click is remembered. Where the discard or the
/// swap is refused nothing changes.
pub fn handle_card_click(game: &mut Game, clicked: usize, now: u64) -> (r: Result<
    ClickOutcome,
    Rejection,
>)
    requires
        old(game)@.wf(),
    ensures
        r == card_click_result(old(game)@, clicked, now),
        final(game)@ == after_card_click(old(game)@, clicked, now),
        r is Err ==> final(game)@ == old(game)@,
        final(game)@.wf(),
{
    if game.state != AppState::PlayerTurn {
        return Err(Rejection::WrongPhase);
    }
    let turn = game.turn.unwrap();
    if clicked >= game.cards.len() {
        return Err(Rejection::NoSuchCard);
    }
    if game.cards[clicked].position == CardPosition::DrawnCard(turn.current_player) {
        return match discard_card(game, clicked) {
            Ok(_) => Ok(ClickOutcome::Discarded),
            Err(why) => Err(why),
        };
    }
    if detect_double_click(&game.double_click, clicked, now) {
        return match card_swap(game, clicked) {
            Ok(_) => Ok(ClickOutcome::Swapped),
            Err(why) => Err(why),
        };
    }
    game.deselect_all();
    game.cards[clicked].selected = Some(Selected);
    game.double_click.last_card = Some(clicked);
    game.double_click.last_click_time = now;
    assert(game@ =~~= after_select(old(game)@, clicked, now));
    proof {
        lemma_select_wf(old(game)@, clicked, now);
    }
    Ok(ClickOutcome::Selected)
}

/// What a click does, or why it is refused. While an effect waits for a
/// pick, a click on a card is that pick. Otherwise the deck is looked at
/// first, then the graveyard, then the card; a click on nothing clears the
/// selection.
pub open spec fn selection_result(s: GameView, click: Click, now: u64) -> Result<
    ClickOutcome,
    Rejection,
> {
    if s.state != AppState::PlayerTurn {
        Err(Rejection::WrongPhase)
    } else if s.effect.awaiting() && click.card is Some {
        match target_click_result(s, click.card->0) {
            Ok(_) => Ok(ClickOutcome::Picked),
            Err(why) => Err(why),
        }
    } else if click.on_deck {
        match deck_click_result(s) {
            Ok(c) => Ok(ClickOutcome::Drew(c)),
            Err(why) => Err(why),
        }
    } else if click.on_graveyard {
        match graveyard_click_result(s) {
            Ok(c) => Ok(ClickOutcome::Drew(c)),
            Err(why) => Err(why),
        }
    } else if click.card is Some {
        card_click_result(s, click.card->0, now)
    } else {
        Ok(ClickOutcome::Deselected)
    }
}

/// The table after a click.
pub open spec fn after_selection(s: GameView, click: Click, now: u64) -> GameView {
    if s.state != AppState::PlayerTurn {
        s
    } else if s.effect.awaiting() && click.card is Some {
        after_target_click(s, click.card->0)
    } else if click.on_deck {
        after_deck_click(s)
    } else if click.on_graveyard {
        after_graveyard_click(s)
    } else if click.card is Some {
        after_card_click(s, click.card->0, now)
    } else {
        s.deselected()
    }
}

/// A click keeps the table well formed, and a refused click changes
/// nothing.
pub proof fn lemma_selection_wf(s: GameView, click: Click, now: u64)
    requires
        s.wf(),
    ensures
        after_selection(s, click, now).wf(),
        selection_result(s, click, now) is Err ==> after_selection(s, click, now) == s,
        s.draws_on(after_selection(s, click, now)),
{
    if s.state != AppState::PlayerTurn {
    } else if s.effect.awaiting() && click.card is Some {
        lemma_target_click_wf(s, click.card->0);
    } else if click.on_deck {
        lemma_deck_click_wf(s);
    } else if click.on_graveyard {
        lemma_graveyard_click_wf(s);
    } else if click.card is Some {
        lemma_card_click_wf(s, click.card->0, now);
    } else {
        lemma_deselected_wf(s);
    }
}

/// Handles one left click at time `now`, in milliseconds.
///
/// While an effect waits for a pick, a click on a card offers that card as
/// the pick and does nothing else. Otherwise a click on the deck draws from
/// it, a click on the graveyard draws its top card, a click on a card is
/// handled as `handle_card_click` says, and a click on nothing clears the
/// selection. A refused click changes nothing.
pub fn card_selection(game: &mut Game, click: Click, now: u64) -> (r: Result<
    ClickOutcome,
    Rejection,
>)
    requires
        old(game)@.wf(),
    ensures
        r == selection_result(old(game)@, click, now),
        final(game)@ == after_selection(old(game)@, click, now),
        r is Err ==> final(game)@ == old(game)@,
        final(game)@.wf(),
{
    if game.state != AppState::PlayerTurn {
        return Err(Rejection::WrongPhase);
    }
    if game.special_effect.is_awaiting() {
        if let Some(c) = click.card {
            return match handle_target_click(game, c) {
                Ok(_) => Ok(ClickOutcome::Picked),
                Err(why) => Err(why),
            };
        }
    }
    if click.on_deck {
        return match handle_deck_click(game) {
            Ok(c) => Ok(ClickOutcome::Drew(c)),
            Err(why) => Err(why),
        };
    }
    if click.on_graveyard {
        return match handle_graveyard_click(game) {
            Ok(c) => Ok(ClickOutcome::Drew(c)),
            Err(why) => Err(why),
        };
    }
    if let Some(c) = click.card {
        return handle_card_click(game, c, now);
    }
    game.deselect_all();
    proof {
        lemma_deselected_wf(old(game)@);
    }
    Ok(ClickOutcome::Deselected)
}

} // verus!
