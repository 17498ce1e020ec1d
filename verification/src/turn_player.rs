//! Whose turn it is, and how the turn and the phase of play advance.

use vstd::prelude::*;
use crate::gamestate::{AppState, Game, GameView, Rejection};
use crate::resolve::lemma_drawn_card;

verus! {

/// The turn in progress.
#[derive(Clone, Copy, Debug, PartialEq, Eq)]
pub struct Turn {
    pub current_player: usize,
    /// Whether the current player has drawn a card this turn.
    pub has_drawn_card: bool,
}

impl GameView {
    /// The player whose turn it is. Meaningful while a turn is in progress.
    pub open spec fn current_player(self) -> usize {
        self.turn->0.current_player
    }

    /// The seat after the current one, going round the table.
    pub open spec fn next_player(self) -> usize {
        if self.current_player() + 1 >= self.players.len() {
            0
        } else {
            (self.current_player() + 1) as usize
        }
    }

    /// Whether the turn can pass on: a turn is in progress, at a table of at
    /// least two.
    pub open spec fn turn_can_pass(self) -> bool {
        &&& self.turn is Some
        &&& self.players.len() >= 2
        &&& self.has_player(self.current_player())
    }

    /// The table once the turn has passed to the next seat. Where it cannot
    /// pass, nothing changes.
    pub open spec fn after_change_turn(self) -> GameView {
        if self.turn_can_pass() {
            GameView {
                turn: Some(Turn { current_player: self.next_player(), has_drawn_card: false }),
                ..self
            }
        } else {
            self
        }
    }

    /// No card is a drawn card.
    pub open spec fn nothing_drawn(self) -> bool {
        forall|c: int|
            #![trigger self.cards[c]]
            0 <= c < self.cards.len() ==> !(self.cards[c].position is DrawnCard)
    }
}

/// Passing the turn keeps the table well formed, provided no drawn card is
/// left unresolved.
pub proof fn lemma_change_turn_wf(s: GameView)
    requires
        s.wf(),
        s.nothing_drawn(),
    ensures
        s.after_change_turn().wf(),
        s.after_change_turn().nothing_drawn(),
        s.plays_on(s.after_change_turn()),
{
    let t = s.after_change_turn();
    assert forall|x: int| 0 <= x < t.cards.len() implies t.card_wf(x) by {
        assert(s.card_wf(x));
    }
}

/// Passes the turn to the next seat and lets that player draw.
pub(crate) fn change_turn(game: &mut Game)
    ensures
        final(game)@ == old(game)@.after_change_turn(),
{
    let n = game.players.len();
    match game.turn {
        Some(t) => {
            if n >= 2 && t.current_player < n {
                let next = if t.current_player + 1 >= n {
                    0
                } else {
                    t.current_player + 1
                };
                game.turn = Some(Turn { current_player: next, has_drawn_card: false });
            }
        },
        None => {},
    }
    assert(game@ =~~= old(game)@.after_change_turn());
}

/// Whether the first turn of a round may start now, or why not.
pub open spec fn start_turn_result(s: GameView) -> Result<(), Rejection> {
    if s.state != AppState::Setup {
        Err(Rejection::WrongPhase)
    } else if s.players.len() == 0 {
        Err(Rejection::NoPlayers)
    } else {
        Ok(())
    }
}

/// The table once the first turn has started: the first seat is up and has
/// not drawn yet.
pub open spec fn after_start_turn(s: GameView) -> GameView {
    if start_turn_result(s) is Ok {
        GameView {
            state: AppState::PlayerTurn,
            turn: Some(Turn { current_player: 0, has_drawn_card: false }),
            ..s
        }
    } else {
        s
    }
}

/// Starting the first turn keeps the table well formed.
pub proof fn lemma_start_turn_wf(s: GameView)
    requires
        s.wf(),
    ensures
        after_start_turn(s).wf(),
        s.plays_on(after_start_turn(s)),
{
    let t = after_start_turn(s);
    assert forall|x: int| 0 <= x < t.cards.len() implies t.card_wf(x) by {
        assert(s.card_wf(x));
    }
}

/// Ends the setup phase: the first seated player is up and may draw.
/// Refused, with nothing changed, outside the setup phase and when nobody
/// is seated.
pub fn start_turn_system(game: &mut Game) -> (r: Result<(), Rejection>)
    requires
        old(game)@.wf(),
    ensures
        r == start_turn_result(old(game)@),
        final(game)@ == after_start_turn(old(game)@),
        r is Err ==> final(game)@ == old(game)@,
        final(game)@.wf(),
{
    proof {
        lemma_start_turn_wf(game@);
    }
    if game.state != AppState::Setup {
        return Err(Rejection::WrongPhase);
    }
    if game.players.len() == 0 {
        return Err(Rejection::NoPlayers);
    }
    game.turn = Some(Turn { current_player: 0, has_drawn_card: false });
    game.state = AppState::PlayerTurn;
    assert(game@ =~~= after_start_turn(old(game)@));
    Ok(())
}

/// Whether the round may end now, or why not. It may at any point of any
/// player's turn.
pub open spec fn end_round_result(s: GameView) -> Result<(), Rejection> {
    if s.state != AppState::PlayerTurn {
        Err(Rejection::WrongPhase)
    } else {
        Ok(())
    }
}

/// The table once the round has ended.
pub open spec fn after_end_round(s: GameView) -> GameView {
    if end_round_result(s) is Ok {
        GameView { state: AppState::RoundEnd, ..s }
    } else {
        s
    }
}

/// Ending the round keeps the table well formed.
pub proof fn lemma_end_round_wf(s: GameView)
    requires
        s.wf(),
    ensures
        after_end_round(s).wf(),
        s.plays_on(after_end_round(s)),
{
    let t = after_end_round(s);
    assert forall|x: int| 0 <= x < t.cards.len() implies t.card_wf(x) by {
        assert(s.card_wf(x));
    }
}

/// Ends the round, whoever is up and whether or not a card has been drawn.
/// Refused, with nothing changed, outside a player's turn.
pub fn end_round_system(game: &mut Game) -> (r: Result<(), Rejection>)
    requires
        old(game)@.wf(),
    ensures
        r == end_round_result(old(game)@),
        final(game)@ == after_end_round(old(game)@),
        r is Err ==> final(game)@ == old(game)@,
        final(game)@.wf(),
{
    proof {
        lemma_end_round_wf(game@);
    }
    if game.state != AppState::PlayerTurn {
        return Err(Rejection::WrongPhase);
    }
    game.state = AppState::RoundEnd;
    assert(game@ =~~= after_end_round(old(game)@));
    Ok(())
}

/// Whether the turn may be passed on by hand, or why not. A drawn card
/// must be resolved first, and an effect must not be waiting for a pick.
pub open spec fn next_turn_result(s: GameView) -> Result<(), Rejection> {
    if s.state != AppState::PlayerTurn {
        Err(Rejection::WrongPhase)
    } else if s.effect.awaiting() {
        Err(Rejection::EffectPending)
    } else if s.drawn_card(s.current_player()) is Some {
        Err(Rejection::DrawnCardUnresolved)
    } else {
        Ok(())
    }
}

/// The table once the turn has been passed on by hand.
pub open spec fn after_next_turn(s: GameView) -> GameView {
    if next_turn_result(s) is Ok {
        s.after_change_turn()
    } else {
        s
    }
}

/// Passing the turn by hand keeps the table well formed.
pub proof fn lemma_next_turn_wf(s: GameView)
    requires
        s.wf(),
    ensures
        after_next_turn(s).wf(),
        s.plays_on(after_next_turn(s)),
{
    if next_turn_result(s) is Ok {
        lemma_drawn_card(s, s.current_player());
        assert forall|c: int| 0 <= c < s.cards.len() implies !(s.cards[c].position is DrawnCard) by {
            assert(s.card_wf(c));
            assert(!s.is_drawn_by(c, s.current_player()));
        }
        lemma_change_turn_wf(s);
    }
}

/// Passes the turn to the next seat on the player's request.
///
/// Refused, with nothing changed, outside a player's turn, while an effect
/// waits for a pick, and while the current player holds a drawn card that
/// is not yet discarded or swapped in.
pub fn next_turn_system(game: &mut Game) -> (r: Result<(), Rejection>)
    requires
        old(game)@.wf(),
    ensures
        r == next_turn_result(old(game)@),
        final(game)@ == after_next_turn(old(game)@),
        r is Err ==> final(game)@ == old(game)@,
        final(game)@.wf(),
{
    proof {
        lemma_next_turn_wf(game@);
    }
    if game.state != AppState::PlayerTurn {
        return Err(Rejection::WrongPhase);
    }
    let turn = game.turn.unwrap();
    if game.special_effect.is_awaiting() {
        return Err(Rejection::EffectPending);
    }
    if game.find_drawn_card(turn.current_player).is_some() {
        return Err(Rejection::DrawnCardUnresolved);
    }
    change_turn(game);
    Ok(())
}

} // verus!
