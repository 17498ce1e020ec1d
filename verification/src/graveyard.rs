//! The discard pile.

use vstd::prelude::*;
use crate::gamestate::{AppState, Game, GameView, Rejection};

verus! {

/// The discarded cards, by card index. The top of the pile comes last.
pub struct Graveyard {
    pub cards: Vec<usize>,
}

/// Whether the graveyard may be laid out now, or why not.
pub open spec fn graveyard_result(s: GameView) -> Result<(), Rejection> {
    if s.state != AppState::Setup {
        Err(Rejection::WrongPhase)
    } else if s.graveyard is Some {
        Err(Rejection::AlreadySetUp)
    } else {
        Ok(())
    }
}

/// The table once the graveyard has been laid out, empty.
pub open spec fn after_graveyard(s: GameView) -> GameView {
    if graveyard_result(s) is Ok {
        GameView { graveyard: Some(Seq::empty()), ..s }
    } else {
        s
    }
}

/// Laying out the graveyard keeps the table well formed.
pub proof fn lemma_spawn_graveyard_wf(s: GameView)
    requires
        s.wf(),
    ensures
        after_graveyard(s).wf(),
        s.plays_on(after_graveyard(s)),
{
    let t = after_graveyard(s);
    assert forall|x: int| 0 <= x < t.cards.len() implies t.card_wf(x) by {
        assert(s.card_wf(x));
    }
}

/// Lays out the empty graveyard of a round. Refused, with nothing changed,
/// outside the setup phase and when the table has a graveyard already.
pub fn spawn_graveyard(game: &mut Game) -> (r: Result<(), Rejection>)
    requires
        old(game)@.wf(),
    ensures
        r == graveyard_result(old(game)@),
        final(game)@ == after_graveyard(old(game)@),
        r is Err ==> final(game)@ == old(game)@,
        final(game)@.wf(),
{
    proof {
        lemma_spawn_graveyard_wf(game@);
    }
    if game.state != AppState::Setup {
        return Err(Rejection::WrongPhase);
    }
    if game.graveyard.is_some() {
        return Err(Rejection::AlreadySetUp);
    }
    game.graveyard = Some(Graveyard { cards: Vec::new() });
    assert(game@ =~~= after_graveyard(old(game)@));
    Ok(())
}

} // verus!
