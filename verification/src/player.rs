//! Seats at the table.

use vstd::prelude::*;
use crate::gamestate::{Game, GameView, Rejection};
use crate::hand::Hand;

verus! {

/// A seated player. Seats are numbered in the order the players were created.
pub struct Player {
    pub name: String,
    pub hand: Hand,
    /// True for the seat that receives input.
    pub is_local_player: bool,
}

/// What a player is, mathematically.
#[verifier::ext_equal]
pub struct PlayerView {
    pub name: Seq<char>,
    /// The cards in hand, in the order they are held.
    pub hand: Seq<usize>,
    pub is_local_player: bool,
}

impl View for Player {
    type V = PlayerView;

    open spec fn view(&self) -> PlayerView {
        PlayerView {
            name: self.name@,
            hand: self.hand.cards@,
            is_local_player: self.is_local_player,
        }
    }
}

/// The two players of a table, as they sit down: the first is the local one.
pub open spec fn seated_pair() -> Seq<PlayerView> {
    seq![
        PlayerView { name: "Player 1"@, hand: Seq::empty(), is_local_player: true },
        PlayerView { name: "Player 2"@, hand: Seq::empty(), is_local_player: false },
    ]
}

/// Whether the players may sit down now, or why not.
pub open spec fn seating_result(s: GameView) -> Result<(), Rejection> {
    if s.players.len() > 0 {
        Err(Rejection::AlreadySetUp)
    } else {
        Ok(())
    }
}

/// The table once the two players have sat down.
pub open spec fn after_seating(s: GameView) -> GameView {
    if seating_result(s) is Ok {
        GameView { players: seated_pair(), ..s }
    } else {
        s
    }
}

/// Seating the players keeps the table well formed.
pub proof fn lemma_seating_wf(s: GameView)
    requires
        s.wf(),
    ensures
        after_seating(s).wf(),
        s.plays_on(after_seating(s)),
{
    let t = after_seating(s);
    assert forall|x: int| 0 <= x < t.cards.len() implies t.card_wf(x) by {
        assert(s.card_wf(x));
    }
}

/// Seats the two players, each with an empty hand. The first is the local
/// player and opens every round. Refused when somebody is seated already.
pub fn spawn_player(game: &mut Game) -> (r: Result<(), Rejection>)
    requires
        old(game)@.wf(),
    ensures
        r == seating_result(old(game)@),
        final(game)@ == after_seating(old(game)@),
        r is Err ==> final(game)@ == old(game)@,
        final(game)@.wf(),
{
    proof {
        lemma_seating_wf(game@);
    }
    if game.players.len() > 0 {
        return Err(Rejection::AlreadySetUp);
    }
    game.players.push(
        Player { name: "Player 1".to_owned(), hand: Hand { cards: Vec::new() }, is_local_player: true },
    );
    game.players.push(
        Player {
            name: "Player 2".to_owned(),
            hand: Hand { cards: Vec::new() },
            is_local_player: false,
        },
    );
    assert(game@ =~~= after_seating(old(game)@));
    Ok(())
}

} // verus!
