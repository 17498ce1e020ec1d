//! The end of a round: the reveal, the scores, and the clearing of the
//! table for the next round.

use vstd::prelude::*;
use crate::card::{Card, CardPosition, DoubleClick, HAND_SIZE};
use crate::gamestate::{AppState, Game, GameView, Rejection};
use crate::player::PlayerView;
use crate::special_cards::SpecialCardEffect;
use crate::turn_player::Turn;

verus! {

/// The cards as they are once every card in a hand lies face up.
pub open spec fn hands_revealed(cards: Seq<Card>) -> Seq<Card> {
    Seq::new(
        cards.len(),
        |c: int|
            if cards[c].position is Hand {
                Card { face_up: true, ..cards[c] }
            } else {
                cards[c]
            },
    )
}

/// Whether the hands may be revealed now, or why not.
pub open spec fn reveal_all_result(s: GameView) -> Result<(), Rejection> {
    if s.state != AppState::RoundEnd {
        Err(Rejection::WrongPhase)
    } else {
        Ok(())
    }
}

/// The table once the hands have been revealed.
pub open spec fn after_reveal_all(s: GameView) -> GameView {
    if reveal_all_result(s) is Ok {
        GameView { cards: hands_revealed(s.cards), ..s }
    } else {
        s
    }
}

/// Revealing the hands keeps the table well formed.
pub proof fn lemma_reveal_all_wf(s: GameView)
    requires
        s.wf(),
    ensures
        after_reveal_all(s).wf(),
        s.plays_on(after_reveal_all(s)),
{
    let t = after_reveal_all(s);
    assert forall|x: int| 0 <= x < t.cards.len() implies t.card_wf(x) by {
        assert(s.card_wf(x));
    }
    assert forall|p: int| 0 <= p < t.players.len() implies t.lists(
        t.players[p].hand,
        CardPosition::Hand(p as usize),
    ) by {
        assert(s.lists(s.players[p].hand, CardPosition::Hand(p as usize)));
    }
}

/// Turns every card that lies in a hand face up. Cards in the deck, on the
/// graveyard or drawn stay as they are. Refused, with nothing changed,
/// before the round has ended.
pub fn reveal_all_cards(game: &mut Game) -> (r: Result<(), Rejection>)
    requires
        old(game)@.wf(),
    ensures
        r == reveal_all_result(old(game)@),
        final(game)@ == after_reveal_all(old(game)@),
        r is Err ==> final(game)@ == old(game)@,
        final(game)@.wf(),
{
    proof {
        lemma_reveal_all_wf(game@);
    }
    if game.state != AppState::RoundEnd {
        return Err(Rejection::WrongPhase);
    }
    let mut i: usize = 0;
    while i < game.cards.len()
        invariant
            i <= game.cards.len(),
            game.cards.len() == old(game).cards.len(),
            game@ == (GameView {
                cards: Seq::new(
                    old(game)@.cards.len(),
                    |c: int|
                        if c < i {
                            hands_revealed(old(game)@.cards)[c]
                        } else {
                            old(game)@.cards[c]
                        },
                ),
                ..old(game)@
            }),
        decreases game.cards.len() - i,
    {
        match game.cards[i].position {
            CardPosition::Hand(_) => {
                game.cards[i].face_up = true;
            },
            _ => {},
        }
        i += 1;
        assert(game@ =~~= (GameView {
            cards: Seq::new(
                old(game)@.cards.len(),
                |c: int|
                    if c < i {
                        hands_revealed(old(game)@.cards)[c]
                    } else {
                        old(game)@.cards[c]
                    },
            ),
            ..old(game)@
        }));
    }
    assert(game@ =~~= after_reveal_all(old(game)@));
    Ok(())
}

/// The score of a hand: the sum of the values of its cards.
pub open spec fn hand_score(cards: Seq<Card>, hand: Seq<usize>) -> nat
    decreases hand.len(),
{
    if hand.len() == 0 {
        0
    } else {
        hand_score(cards, hand.drop_last()) + cards[hand.last() as int].value as nat
    }
}

/// The scores of a round.
pub struct Scores {
    /// The score of each player, by seat.
    pub totals: Vec<u32>,
    /// The player with the lowest score; of several, the one seated first.
    /// `None` where nobody is seated.
    pub winner: Option<usize>,
    /// Whether another player has the winner's score too.
    pub tie: bool,
}

/// `winner` is the first seat with the lowest of the `totals`.
pub open spec fn is_first_lowest(totals: Seq<u32>, winner: int) -> bool {
    &&& 0 <= winner < totals.len()
    &&& forall|q: int| 0 <= q < totals.len() ==> totals[winner] <= #[trigger] totals[q]
    &&& forall|q: int| 0 <= q < winner ==> totals[winner] < #[trigger] totals[q]
}

/// Whether `scores` are the scores of table `s`: each player's total is the
/// score of the hand, the lowest total wins, and a shared lowest total is
/// reported as a tie, with the player seated first named as winner.
pub open spec fn scores_of(s: GameView, scores: Scores) -> bool {
    &&& scores.totals@.len() == s.players.len()
    &&& forall|p: int|
        0 <= p < s.players.len() ==> (#[trigger] scores.totals@[p]) == hand_score(
            s.cards,
            s.players[p].hand,
        )
    &&& scores.winner is None <==> s.players.len() == 0
    &&& scores.winner matches Some(w) ==> {
        &&& is_first_lowest(scores.totals@, w as int)
        &&& scores.tie <==> exists|q: int|
            0 <= q < scores.totals@.len() && q != w && (#[trigger] scores.totals@[q])
                == scores.totals@[w as int]
    }
    &&& scores.winner is None ==> !scores.tie
}

impl Game {
    /// The score of the hand of player `p`.
    pub fn score_of(&self, p: usize) -> (total: u32)
        requires
            self@.wf(),
            self@.has_player(p),
        ensures
            total == hand_score(self@.cards, self@.hand(p)),
    {
        let hand = &self.players[p].hand.cards;
        proof {
            assert(hand@ == self@.hand(p));
            assert(self@.lists(self@.players[p as int].hand, CardPosition::Hand(p)));
        }
        let mut total: u32 = 0;
        let mut i: usize = 0;
        while i < hand.len()
            invariant
                i <= hand.len(),
                hand.len() <= HAND_SIZE,
                forall|k: int| 0 <= k < hand.len() ==> (#[trigger] hand[k]) < self.cards.len(),
                total == hand_score(self.cards@, hand@.subrange(0, i as int)),
                total <= 255 * i,
            decreases hand.len() - i,
        {
            assert(hand@.subrange(0, i + 1).drop_last() =~= hand@.subrange(0, i as int));
            total = total + self.cards[hand[i]].value as u32;
            i += 1;
        }
        assert(hand@.subrange(0, i as int) =~= hand@);
        total
    }
}

/// Scores the round: each player's total is the sum of the values in hand,
/// and the lowest total wins.
///
/// Two or more players on the lowest total are a tie: it is reported as
/// such, and the one seated first is named as winner.
pub fn calculate_scores(game: &Game) -> (scores: Scores)
    requires
        game@.wf(),
    ensures
        scores_of(game@, scores),
{
    let mut totals: Vec<u32> = Vec::new();
    let mut winner: Option<usize> = None;
    let mut tie = false;
    let mut p: usize = 0;
    while p < game.players.len()
        invariant
            game@.wf(),
            p <= game.players.len(),
            game@.players.len() == game.players.len(),
            totals@.len() == p,
            forall|q: int|
                0 <= q < p ==> (#[trigger] totals@[q]) == hand_score(
                    game@.cards,
                    game@.players[q].hand,
                ),
            winner is None <==> p == 0,
            winner matches Some(w) ==> {
                &&& is_first_lowest(totals@, w as int)
                &&& tie <==> exists|q: int|
                    0 <= q < totals@.len() && q != w && (#[trigger] totals@[q]) == totals@[w as int]
            },
            winner is None ==> !tie,
        decreases game.players.len() - p,
    {
        let total = game.score_of(p);
        let ghost before = totals@;
        totals.push(total);
        match winner {
            None => {
                winner = Some(p);
            },
            Some(w) => {
                assert(before[w as int] == totals@[w as int]);
                if total < totals[w] {
                    winner = Some(p);
                    tie = false;
                    assert forall|q: int| 0 <= q < totals@.len() && q != p implies totals@[q]
                        != totals@[p as int] by {
                        assert(before[q] == totals@[q]);
                    }
                } else if total == totals[w] {
                    tie = true;
                    assert(totals@[p as int] == totals@[w as int]);
                } else {
                    proof {
                        if tie {
                            let q = choose|q: int|
                                0 <= q < before.len() && q != w && (#[trigger] before[q])
                                    == before[w as int];
                            assert(totals@[q] == totals@[w as int]);
                        } else {
                            assert forall|q: int|
                                0 <= q < totals@.len() && q != w implies totals@[q]
                                != totals@[w as int] by {
                                if q < p {
                                    assert(before[q] == totals@[q]);
                                }
                            }
                        }
                    }
                }
                assert forall|q: int| 0 <= q < totals@.len() implies totals@[winner->0 as int]
                    <= #[trigger] totals@[q] by {
                    if q < p {
                        assert(before[q] == totals@[q]);
                    }
                }
                assert forall|q: int| 0 <= q < winner->0 implies totals@[winner->0 as int]
                    < #[trigger] totals@[q] by {
                    assert(before[q] == totals@[q]);
                }
            },
        }
        p += 1;
    }
    Scores { totals, winner, tie }
}

impl GameView {
    /// The table with every zone emptied: no cards, no deck, no graveyard,
    /// empty hands, no effect in progress, no click remembered.
    pub open spec fn cleared(self) -> GameView {
        GameView {
            players: Seq::new(
                self.players.len(),
                |p: int| PlayerView { hand: Seq::empty(), ..self.players[p] },
            ),
            cards: Seq::empty(),
            deck: None,
            graveyard: None,
            effect: SpecialCardEffect::empty(),
            double_click: DoubleClick { last_card: None, ..self.double_click },
            ..self
        }
    }
}

/// Whether the table may be cleared for a new round now, or why not.
pub open spec fn new_round_result(s: GameView) -> Result<(), Rejection> {
    if s.state != AppState::RoundEnd {
        Err(Rejection::WrongPhase)
    } else {
        Ok(())
    }
}

/// The table once it has been cleared for a new round: every zone is empty,
/// nobody has drawn, and setup begins.
pub open spec fn after_new_round(s: GameView) -> GameView {
    if new_round_result(s) is Ok {
        GameView {
            state: AppState::Setup,
            turn: match s.turn {
                Some(t) => Some(Turn { has_drawn_card: false, ..t }),
                None => None,
            },
            ..s.cleared()
        }
    } else {
        s
    }
}

/// Clearing the table for a new round keeps it well formed.
pub proof fn lemma_new_round_wf(s: GameView)
    requires
        s.wf(),
    ensures
        after_new_round(s).wf(),
{
}

impl Game {
    /// Empties every zone.
    pub(crate) fn clear_table(&mut self)
        ensures
            final(self)@ == old(self)@.cleared(),
    {
        let mut p: usize = 0;
        while p < self.players.len()
            invariant
                p <= self.players.len(),
                self.players.len() == old(self).players.len(),
                self@ == (GameView {
                    players: Seq::new(
                        old(self)@.players.len(),
                        |q: int|
                            if q < p {
                                PlayerView { hand: Seq::empty(), ..old(self)@.players[q] }
                            } else {
                                old(self)@.players[q]
                            },
                    ),
                    ..old(self)@
                }),
            decreases self.players.len() - p,
        {
            let ghost before = self@;
            self.players[p].hand.cards.clear();
            p += 1;
            assert(self@.players[p - 1].hand =~= Seq::<usize>::empty());
            assert(self@.players[p - 1].name == before.players[p - 1].name);
            assert forall|q: int| 0 <= q < p - 1 implies self@.players[q] == (PlayerView {
                hand: Seq::empty(),
                ..old(self)@.players[q]
            }) by {
                assert(self@.players[q] == before.players[q]);
            }
            assert forall|q: int| p <= q < self@.players.len() implies self@.players[q] == old(
                self,
            )@.players[q] by {
                assert(self@.players[q] == before.players[q]);
            }
            assert(self@ =~~= (GameView {
                players: Seq::new(
                    old(self)@.players.len(),
                    |q: int|
                        if q < p {
                            PlayerView { hand: Seq::empty(), ..old(self)@.players[q] }
                        } else {
                            old(self)@.players[q]
                        },
                ),
                ..old(self)@
            }));
        }
        self.cards.clear();
        self.deck = None;
        self.graveyard = None;
        self.special_effect = SpecialCardEffect::default();
        self.double_click.last_card = None;
        assert(self@ =~~= old(self)@.cleared());
    }
}

/// Clears the table for a new round and begins its setup.
///
/// Every hand is emptied, every card, the deck and the graveyard are
/// removed, any effect in progress is dropped, and the player who is up has
/// not drawn. Refused, with nothing changed, before the round has ended.
pub fn prepare_new_round(game: &mut Game) -> (r: Result<(), Rejection>)
    requires
        old(game)@.wf(),
    ensures
        r == new_round_result(old(game)@),
        final(game)@ == after_new_round(old(game)@),
        r is Err ==> final(game)@ == old(game)@,
        final(game)@.wf(),
{
    proof {
        lemma_new_round_wf(game@);
    }
    if game.state != AppState::RoundEnd {
        return Err(Rejection::WrongPhase);
    }
    game.clear_table();
    match game.turn {
        Some(t) => {
            game.turn = Some(Turn { current_player: t.current_player, has_drawn_card: false });
        },
        None => {},
    }
    game.state = AppState::Setup;
    assert(game@ =~~= after_new_round(old(game)@));
    Ok(())
}

} // verus!
