//! Resolving the drawn card: discarding it, or swapping it into the hand.

use vstd::prelude::*;
use crate::card::{Card, CardPosition};
use crate::gamestate::{AppState, Game, GameView, Rejection};
use crate::turn_player::{change_turn, lemma_change_turn_wf};

verus! {

/// A card as it lies on the graveyard: face up, unowned, its effect spent.
pub open spec fn discarded(card: Card) -> Card {
    Card {
        position: CardPosition::Graveyard,
        face_up: true,
        owner_id: None,
        from_deck: false,
        ..card
    }
}

/// A drawn card as it is once taken into the hand of player `p`: face down,
/// its effect spent.
pub open spec fn taken_in(card: Card, p: usize) -> Card {
    Card {
        position: CardPosition::Hand(p),
        face_up: false,
        owner_id: Some(p),
        from_deck: false,
        ..card
    }
}

impl GameView {
    /// Card `c` is the drawn card of player `p`.
    pub open spec fn is_drawn_by(self, c: int, p: usize) -> bool {
        0 <= c < self.cards.len() && self.cards[c].position == CardPosition::DrawnCard(p)
    }

    /// The drawn card of player `p`, if there is one.
    pub open spec fn drawn_card(self, p: usize) -> Option<usize> {
        if exists|c: int| self.is_drawn_by(c, p) {
            Some((choose|c: int| self.is_drawn_by(c, p)) as usize)
        } else {
            None
        }
    }

    /// What stands in the way of the current player resolving a drawn card,
    /// if anything.
    pub open spec fn resolve_refusal(self) -> Option<Rejection> {
        if self.state != AppState::PlayerTurn {
            Some(Rejection::WrongPhase)
        } else if self.effect.awaiting() {
            Some(Rejection::EffectPending)
        } else {
            None
        }
    }
}

/// Whether the current player may discard card `c`, or why not.
pub open spec fn discard_result(s: GameView, c: usize) -> Result<(), Rejection> {
    if let Some(why) = s.resolve_refusal() {
        Err(why)
    } else if !s.has_card(c) {
        Err(Rejection::NoSuchCard)
    } else if s.cards[c as int].position != CardPosition::DrawnCard(s.current_player()) {
        Err(Rejection::NotDrawnCard)
    } else if s.graveyard is None {
        Err(Rejection::NoGraveyard)
    } else {
        Ok(())
    }
}

/// The table after the current player discards drawn card `c`: the card
/// tops the graveyard, nothing is selected, and the turn has passed on.
pub open spec fn after_discard(s: GameView, c: usize) -> GameView {
    if discard_result(s, c) is Ok {
        GameView {
            cards: s.cards.update(c as int, discarded(s.cards[c as int])),
            graveyard: Some(s.graveyard->0.push(c)),
            ..s
        }.deselected().after_change_turn()
    } else {
        s
    }
}

/// The drawn card that a swap with hand card `clicked` takes in, or why the
/// swap is refused.
pub open spec fn swap_result(s: GameView, clicked: usize) -> Result<usize, Rejection> {
    if let Some(why) = s.resolve_refusal() {
        Err(why)
    } else if !s.has_card(clicked) {
        Err(Rejection::NoSuchCard)
    } else if !(s.cards[clicked as int].position is Hand) {
        Err(Rejection::CardNotInHand)
    } else if s.cards[clicked as int].position != CardPosition::Hand(s.current_player()) {
        Err(Rejection::NotYourTurn)
    } else if s.drawn_card(s.current_player()) is None {
        Err(Rejection::NoDrawnCard)
    } else if s.graveyard is None {
        Err(Rejection::NoGraveyard)
    } else {
        Ok(s.drawn_card(s.current_player())->0)
    }
}

/// The table after the current player swaps the drawn card for hand card
/// `clicked`: the drawn card lies face down in the hand in place of
/// `clicked`, `clicked` tops the graveyard, nothing is selected, and the
/// turn has passed on.
pub open spec fn after_swap(s: GameView, clicked: usize) -> GameView {
    match swap_result(s, clicked) {
        Ok(drawn) => {
            let p = s.current_player();
            let hand = s.hand(p);
            GameView {
                cards: s.cards.update(drawn as int, taken_in(s.cards[drawn as int], p)).update(
                    clicked as int,
                    discarded(s.cards[clicked as int]),
                ),
                graveyard: Some(s.graveyard->0.push(clicked)),
                ..s
            }.with_hand(p, hand.remove(hand.index_of(clicked)).push(drawn)).deselected()
                .after_change_turn()
        },
        Err(_) => s,
    }
}

/// Clearing the selection keeps the table well formed.
pub proof fn lemma_deselected_wf(s: GameView)
    requires
        s.wf(),
    ensures
        s.deselected().wf(),
        s.nothing_drawn() ==> s.deselected().nothing_drawn(),
        s.plays_on(s.deselected()),
{
    let t = s.deselected();
    assert forall|x: int| 0 <= x < t.cards.len() implies t.card_wf(x) by {
        assert(s.card_wf(x));
    }
    assert forall|p: int| 0 <= p < t.players.len() implies t.lists(
        t.players[p].hand,
        CardPosition::Hand(p as usize),
    ) by {
        assert(s.lists(s.players[p].hand, CardPosition::Hand(p as usize)));
    }
}

/// In a well-formed table the drawn card of a player, if any, is the only
/// drawn card there is.
pub proof fn lemma_drawn_card(s: GameView, p: usize)
    requires
        s.wf(),
    ensures
        match s.drawn_card(p) {
            Some(c) => s.is_drawn_by(c as int, p) && forall|d: int|
                #![trigger s.cards[d]]
                0 <= d < s.cards.len() && s.cards[d].position is DrawnCard ==> d == c,
            None => forall|d: int| #![trigger s.cards[d]] !s.is_drawn_by(d, p),
        },
{
    if exists|c: int| s.is_drawn_by(c, p) {
        let c = choose|c: int| s.is_drawn_by(c, p);
        assert(s.cards[c].position is DrawnCard);
    }
}

/// Discarding the drawn card keeps the table well formed.
pub proof fn lemma_discard_wf(s: GameView, c: usize)
    requires
        s.wf(),
    ensures
        after_discard(s, c).wf(),
        s.plays_on(after_discard(s, c)),
{
    if discard_result(s, c) is Ok {
        let g = s.graveyard->0;
        let moved = GameView {
            cards: s.cards.update(c as int, discarded(s.cards[c as int])),
            graveyard: Some(g.push(c)),
            ..s
        };
        assert(moved.nothing_drawn());
        assert(moved.lists(g.push(c), CardPosition::Graveyard)) by {
            assert forall|i: int, j: int|
                0 <= i < g.push(c).len() && 0 <= j < g.push(c).len() && i != j implies g.push(
                c,
            )[i] != g.push(c)[j] by {
                if i < g.len() {
                    assert(g[i] != c);
                }
                if j < g.len() {
                    assert(g[j] != c);
                }
            }
        }
        assert forall|x: int| 0 <= x < moved.cards.len() implies moved.card_wf(x) by {
            assert(s.card_wf(x));
            if x == c {
                assert(g.push(c)[g.len() as int] == c);
            } else if s.cards[x].position is Graveyard {
                let i = choose|i: int| 0 <= i < g.len() && g[i] == x as usize;
                assert(g.push(c)[i] == x as usize);
            }
        }
        assert(moved.wf());
        lemma_deselected_wf(moved);
        lemma_change_turn_wf(moved.deselected());
    }
}

/// Replacing one entry of a duplicate-free list by a card that is not in it
/// leaves a duplicate-free list of the same length, holding the new card and
/// every old entry but the one replaced.
pub proof fn lemma_replace_entry(list: Seq<usize>, k: int, new: usize)
    requires
        list.no_duplicates(),
        0 <= k < list.len(),
        !list.contains(new),
    ensures
        list.remove(k).push(new).len() == list.len(),
        list.remove(k).push(new).no_duplicates(),
        list.remove(k).push(new).contains(new),
        forall|i: int|
            #![trigger list.remove(k).push(new)[i]]
            0 <= i < list.len() ==> list.remove(k).push(new)[i] == new || (list.contains(
                list.remove(k).push(new)[i],
            ) && list.remove(k).push(new)[i] != list[k]),
        forall|j: int|
            #![trigger list[j]]
            0 <= j < list.len() && j != k ==> list.remove(k).push(new).contains(list[j]),
{
    let r = list.remove(k).push(new);
    assert forall|i: int| 0 <= i < list.len() - 1 implies r[i] == list[if i < k {
        i
    } else {
        i + 1
    }] by {}
    assert(r[list.len() - 1] == new);
    assert forall|i: int, j: int| 0 <= i < r.len() && 0 <= j < r.len() && i != j implies r[i]
        != r[j] by {
        if i < list.len() - 1 {
            assert(list.contains(r[i]));
        }
        if j < list.len() - 1 {
            assert(list.contains(r[j]));
        }
    }
    assert forall|j: int| 0 <= j < list.len() && j != k implies r.contains(list[j]) by {
        if j < k {
            assert(r[j] == list[j]);
        } else {
            assert(r[j - 1] == list[j]);
        }
    }
}

/// Swapping the drawn card into the hand keeps the table well formed.
pub proof fn lemma_swap_wf(s: GameView, clicked: usize)
    requires
        s.wf(),
    ensures
        after_swap(s, clicked).wf(),
        s.plays_on(after_swap(s, clicked)),
{
    if let Ok(drawn) = swap_result(s, clicked) {
        let p = s.current_player();
        let g = s.graveyard->0;
        let hand = s.hand(p);
        let k = hand.index_of(clicked);
        let hand2 = hand.remove(k).push(drawn);
        let g2 = g.push(clicked);
        lemma_drawn_card(s, p);
        assert(s.card_wf(clicked as int));
        assert(s.card_wf(drawn as int));
        assert(hand.contains(clicked));
        assert(0 <= k < hand.len() && hand[k] == clicked);
        assert(s.lists(hand, CardPosition::Hand(p)));
        assert(!hand.contains(drawn));
        assert(!g.contains(clicked));
        lemma_replace_entry(hand, k, drawn);
        let moved = GameView {
            cards: s.cards.update(drawn as int, taken_in(s.cards[drawn as int], p)).update(
                clicked as int,
                discarded(s.cards[clicked as int]),
            ),
            graveyard: Some(g2),
            ..s
        }.with_hand(p, hand2);
        assert(moved.nothing_drawn());
        assert(moved.lists(g2, CardPosition::Graveyard)) by {
            assert forall|i: int, j: int|
                0 <= i < g2.len() && 0 <= j < g2.len() && i != j implies g2[i] != g2[j] by {
                if i < g.len() {
                    assert(g.contains(g2[i]));
                }
                if j < g.len() {
                    assert(g.contains(g2[j]));
                }
            }
        }
        assert forall|q: int| 0 <= q < moved.players.len() implies moved.players[q].hand.len()
            <= crate::card::HAND_SIZE && moved.lists(
            moved.players[q].hand,
            CardPosition::Hand(q as usize),
        ) by {
            assert(s.lists(s.players[q].hand, CardPosition::Hand(q as usize)));
            if q == p {
                assert forall|i: int| 0 <= i < hand2.len() implies moved.has_card(hand2[i])
                    && moved.cards[hand2[i] as int].position == CardPosition::Hand(p) by {
                    if hand2[i] != drawn {
                        assert(hand.contains(hand2[i]));
                    }
                }
            }
        }
        assert forall|x: int| 0 <= x < moved.cards.len() implies moved.card_wf(x) by {
            assert(s.card_wf(x));
            if x == clicked {
                assert(g2[g.len() as int] == clicked);
            } else if x == drawn {
            } else {
                match s.cards[x].position {
                    CardPosition::Graveyard => {
                        let i = choose|i: int| 0 <= i < g.len() && g[i] == x as usize;
                        assert(g2[i] == x as usize);
                    },
                    CardPosition::Hand(q) => {
                        if q == p {
                            let j = choose|j: int| 0 <= j < hand.len() && hand[j] == x as usize;
                            assert(hand2.contains(hand[j]));
                        }
                    },
                    _ => {},
                }
            }
        }
        assert(moved.wf());
        lemma_deselected_wf(moved);
        lemma_change_turn_wf(moved.deselected());
    }
}

/// Finds where `card` stands in `list`.
pub fn position_in(list: &Vec<usize>, card: usize) -> (r: Option<usize>)
    ensures
        match r {
            Some(i) => i < list.len() && list[i as int] == card && forall|j: int|
                0 <= j < i ==> list[j] != card,
            None => !list@.contains(card),
        },
{
    let mut i: usize = 0;
    while i < list.len()
        invariant
            i <= list.len(),
            forall|j: int| 0 <= j < i ==> list[j] != card,
        decreases list.len() - i,
    {
        if list[i] == card {
            return Some(i);
        }
        i += 1;
    }
    None
}

impl Game {
    /// Finds the drawn card of player `p`.
    pub fn find_drawn_card(&self, p: usize) -> (r: Option<usize>)
        requires
            self@.wf(),
        ensures
            r == self@.drawn_card(p),
    {
        let mut i: usize = 0;
        while i < self.cards.len()
            invariant
                self@.wf(),
                i <= self.cards.len(),
                forall|d: int| #![trigger self@.cards[d]] 0 <= d < i ==> !self@.is_drawn_by(d, p),
            decreases self.cards.len() - i,
        {
            if self.cards[i].position == CardPosition::DrawnCard(p) {
                proof {
                    lemma_drawn_card(self@, p);
                    assert(self@.is_drawn_by(i as int, p));
                    assert(self@.cards[i as int].position is DrawnCard);
                }
                return Some(i);
            }
            i += 1;
        }
        None
    }

    /// Removes the selection mark from every card.
    pub fn deselect_all(&mut self)
        ensures
            final(self)@ == old(self)@.deselected(),
            old(self)@.wf() ==> final(self)@.wf(),
    {
        proof {
            if self@.wf() {
                lemma_deselected_wf(self@);
            }
        }
        let mut i: usize = 0;
        while i < self.cards.len()
            invariant
                i <= self.cards.len(),
                self.cards.len() == old(self).cards.len(),
                self@ == (GameView {
                    cards: Seq::new(
                        old(self)@.cards.len(),
                        |c: int|
                            if c < i {
                                Card { selected: None, ..old(self)@.cards[c] }
                            } else {
                                old(self)@.cards[c]
                            },
                    ),
                    ..old(self)@
                }),
            decreases self.cards.len() - i,
        {
            self.cards[i].selected = None;
            i += 1;
            assert(self@ =~~= (GameView {
                cards: Seq::new(
                    old(self)@.cards.len(),
                    |c: int|
                        if c < i {
                            Card { selected: None, ..old(self)@.cards[c] }
                        } else {
                            old(self)@.cards[c]
                        },
                ),
                ..old(self)@
            }));
        }
        assert(self@ =~~= old(self)@.deselected());
    }
}

/// Discards the current player's drawn card `c` and passes the turn.
///
/// The card goes face up on top of the graveyard and loses its owner, any
/// selection is cleared, and the next player is up. The discard is refused,
/// and nothing changes, outside a player's turn, while an effect waits for a
/// pick, when `c` is not the current player's drawn card, and when there is
/// no graveyard.
pub fn discard_card(game: &mut Game, c: usize) -> (r: Result<(), Rejection>)
    requires
        old(game)@.wf(),
    ensures
        r == discard_result(old(game)@, c),
        final(game)@ == after_discard(old(game)@, c),
        r is Err ==> final(game)@ == old(game)@,
        final(game)@.wf(),
{
    proof {
        lemma_discard_wf(game@, c);
    }
    if game.state != AppState::PlayerTurn {
        return Err(Rejection::WrongPhase);
    }
    let turn = game.turn.unwrap();
    if game.special_effect.is_awaiting() {
        return Err(Rejection::EffectPending);
    }
    if c >= game.cards.len() {
        return Err(Rejection::NoSuchCard);
    }
    if game.cards[c].position != CardPosition::DrawnCard(turn.current_player) {
        return Err(Rejection::NotDrawnCard);
    }
    if game.graveyard.is_none() {
        return Err(Rejection::NoGraveyard);
    }
    proof {
        assert(game@.lists(game@.graveyard->0, CardPosition::Graveyard));
    }
    game.move_to(c, CardPosition::Graveyard);
    game.cards[c].face_up = true;
    game.cards[c].from_deck = false;
    assert(game@ =~~= (GameView {
        cards: old(game)@.cards.update(c as int, discarded(old(game)@.cards[c as int])),
        graveyard: Some(old(game)@.graveyard->0.push(c)),
        ..old(game)@
    }));
    game.deselect_all();
    change_turn(game);
    Ok(())
}

/// Swaps the current player's drawn card for hand card `clicked` and passes
/// the turn.
///
/// Either the swap completes: the drawn card lies face down in the hand,
/// `clicked` lies face up on top of the graveyard, the hand list holds the
/// drawn card in place of `clicked`, any selection is cleared and the next
/// player is up. Or it is refused and nothing at all changes: outside a
/// player's turn, while an effect waits for a pick, when `clicked` is not in
/// the current player's hand, when the player holds no drawn card, and when
/// there is no graveyard.
pub fn card_swap(game: &mut Game, clicked: usize) -> (r: Result<usize, Rejection>)
    requires
        old(game)@.wf(),
    ensures
        r == swap_result(old(game)@, clicked),
        final(game)@ == after_swap(old(game)@, clicked),
        r is Err ==> final(game)@ == old(game)@,
        final(game)@.wf(),
{
    proof {
        lemma_swap_wf(game@, clicked);
    }
    if game.state != AppState::PlayerTurn {
        return Err(Rejection::WrongPhase);
    }
    let turn = game.turn.unwrap();
    if game.special_effect.is_awaiting() {
        return Err(Rejection::EffectPending);
    }
    if clicked >= game.cards.len() {
        return Err(Rejection::NoSuchCard);
    }
    let p = turn.current_player;
    match game.cards[clicked].position {
        CardPosition::Hand(q) => {
            if q != p {
                return Err(Rejection::NotYourTurn);
            }
        },
        _ => {
            return Err(Rejection::CardNotInHand);
        },
    }
    let drawn = match game.find_drawn_card(p) {
        Some(d) => d,
        None => {
            return Err(Rejection::NoDrawnCard);
        },
    };
    if game.graveyard.is_none() {
        return Err(Rejection::NoGraveyard);
    }
    proof {
        lemma_drawn_card(game@, p);
        assert(game@.card_wf(clicked as int));
        assert(game@.lists(game@.hand(p), CardPosition::Hand(p)));
        assert(game@.players[p as int].hand == game.players[p as int].hand.cards@);
    }
    game.move_to(clicked, CardPosition::Graveyard);
    game.move_to(drawn, CardPosition::Hand(p));
    game.cards[drawn].face_up = false;
    game.cards[drawn].from_deck = false;
    game.cards[clicked].face_up = true;
    game.cards[clicked].from_deck = false;
    assert(game@ =~~= (GameView {
        cards: old(game)@.cards.update(
            drawn as int,
            taken_in(old(game)@.cards[drawn as int], p),
        ).update(clicked as int, discarded(old(game)@.cards[clicked as int])),
        graveyard: Some(old(game)@.graveyard->0.push(clicked)),
        ..old(game)@
    }.with_hand(
        p,
        old(game)@.hand(p).remove(old(game)@.hand(p).index_of(clicked)).push(drawn),
    )));
    game.deselect_all();
    change_turn(game);
    Ok(drawn)
}

} // verus!
