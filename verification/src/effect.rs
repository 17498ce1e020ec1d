//! Resolution of the three power effects.

use vstd::prelude::*;
use crate::card::{Card, CardPosition, HAND_SIZE};
use crate::gamestate::{AppState, Game, GameView, Rejection};
use crate::random::{random_index, shuffle};
use crate::resolve::lemma_replace_entry;
use crate::special_cards::{lemma_effect_change_wf, SpecialCardEffect, SpecialEffect};

verus! {

/// The cards of `list` that lie face down, in the order of `list`.
pub open spec fn face_down(cards: Seq<Card>, list: Seq<usize>) -> Seq<usize>
    decreases list.len(),
{
    if list.len() == 0 {
        Seq::empty()
    } else {
        let rest = face_down(cards, list.drop_last());
        let c = list.last();
        if c < cards.len() && !cards[c as int].face_up {
            rest.push(c)
        } else {
            rest
        }
    }
}

/// Every card picked out by `face_down` is a face-down card of the list.
pub proof fn lemma_face_down(cards: Seq<Card>, list: Seq<usize>)
    ensures
        face_down(cards, list).len() <= list.len(),
        forall|i: int|
            #![trigger face_down(cards, list)[i]]
            0 <= i < face_down(cards, list).len() ==> {
                let c = face_down(cards, list)[i];
                c < cards.len() && !cards[c as int].face_up && list.contains(c)
            },
        forall|j: int|
            #![trigger list[j]]
            0 <= j < list.len() && list[j] < cards.len() && !cards[list[j] as int].face_up
                ==> face_down(cards, list).contains(list[j]),
    decreases list.len(),
{
    if list.len() > 0 {
        let init = list.drop_last();
        lemma_face_down(cards, init);
        let rest = face_down(cards, init);
        let out = face_down(cards, list);
        assert forall|i: int| 0 <= i < out.len() implies {
            let c = #[trigger] out[i];
            c < cards.len() && !cards[c as int].face_up && list.contains(c)
        } by {
            if i < rest.len() {
                assert(out[i] == rest[i]);
                let j = choose|j: int| 0 <= j < init.len() && init[j] == rest[i];
                assert(list[j] == rest[i]);
            } else {
                assert(out[i] == list[list.len() - 1]);
            }
        }
        assert forall|j: int|
            0 <= j < list.len() && (#[trigger] list[j]) < cards.len() && !cards[list[j] as int].face_up
            implies out.contains(list[j]) by {
            if j < init.len() {
                assert(init[j] == list[j]);
                let i = choose|i: int| 0 <= i < rest.len() && rest[i] == list[j];
                assert(out[i] == list[j]);
            } else {
                assert(out[out.len() - 1] == list[j]);
            }
        }
    }
}

impl GameView {
    /// The table with the effect cleared.
    pub open spec fn effect_cleared(self) -> GameView {
        GameView { effect: SpecialCardEffect::empty(), ..self }
    }

    /// The table with the effect cleared and the card that triggered it no
    /// longer eligible: an effect is used once.
    pub open spec fn effect_spent(self) -> GameView {
        let cleared = self.effect_cleared();
        match self.effect.card_entity {
            Some(e) => if self.has_card(e) {
                cleared.with_card(e, Card { from_deck: false, ..self.cards[e as int] })
            } else {
                cleared
            },
            None => cleared,
        }
    }

    /// The face-down cards in the hand of the current player, in hand order:
    /// the cards a Reveal can pick from.
    pub open spec fn reveal_candidates(self) -> Seq<usize> {
        if self.turn is Some && self.has_player(self.current_player()) {
            face_down(self.cards, self.hand(self.current_player()))
        } else {
            Seq::empty()
        }
    }
}

/// Spending the effect keeps the table well formed.
pub proof fn lemma_effect_spent_wf(s: GameView)
    requires
        s.wf(),
    ensures
        s.effect_cleared().wf(),
        s.effect_spent().wf(),
        s.plays_on(s.effect_spent()),
{
    lemma_effect_change_wf(s, SpecialCardEffect::empty());
    let u = s.effect_cleared();
    let t = s.effect_spent();
    assert forall|x: int| 0 <= x < t.cards.len() implies t.card_wf(x) by {
        assert(u.card_wf(x));
    }
    assert forall|p: int| 0 <= p < t.players.len() implies t.lists(
        t.players[p].hand,
        CardPosition::Hand(p as usize),
    ) by {
        assert(u.lists(u.players[p].hand, CardPosition::Hand(p as usize)));
    }
}

/// The card that a Reveal turns face up when chance picks candidate `pick`,
/// or why nothing resolves. With no face-down card in hand the effect is
/// consumed without a reveal, whatever `pick` is.
pub open spec fn reveal_result(s: GameView, pick: usize) -> Result<Option<usize>, Rejection> {
    if s.state != AppState::PlayerTurn {
        Err(Rejection::WrongPhase)
    } else if s.effect.effect_type != Some(SpecialEffect::Reveal) {
        Err(Rejection::NoEffect)
    } else if s.reveal_candidates().len() == 0 {
        Ok(None)
    } else if pick >= s.reveal_candidates().len() {
        Err(Rejection::NoSuchChoice)
    } else {
        Ok(Some(s.reveal_candidates()[pick as int]))
    }
}

/// The table after a Reveal resolved with candidate `pick`: the picked card
/// lies face up, the effect is spent.
pub open spec fn after_reveal(s: GameView, pick: usize) -> GameView {
    match reveal_result(s, pick) {
        Ok(Some(c)) => s.with_card(c, Card { face_up: true, ..s.cards[c as int] }).effect_spent(),
        Ok(None) => s.effect_spent(),
        Err(_) => s,
    }
}

/// A Reveal keeps the table well formed.
pub proof fn lemma_reveal_wf(s: GameView, pick: usize)
    requires
        s.wf(),
    ensures
        after_reveal(s, pick).wf(),
        s.plays_on(after_reveal(s, pick)),
{
    match reveal_result(s, pick) {
        Ok(Some(c)) => {
            let p = s.current_player();
            lemma_face_down(s.cards, s.hand(p));
            assert(s.lists(s.players[p as int].hand, CardPosition::Hand(p)));
            let t = s.with_card(c, Card { face_up: true, ..s.cards[c as int] });
            assert(s.cards[c as int].position == CardPosition::Hand(p));
            assert forall|x: int| 0 <= x < t.cards.len() implies t.card_wf(x) by {
                assert(s.card_wf(x));
            }
            assert forall|q: int| 0 <= q < t.players.len() implies t.lists(
                t.players[q].hand,
                CardPosition::Hand(q as usize),
            ) by {
                assert(s.lists(s.players[q].hand, CardPosition::Hand(q as usize)));
            }
            assert(t.wf());
            lemma_effect_spent_wf(t);
        },
        Ok(None) => {
            lemma_effect_spent_wf(s);
        },
        Err(_) => {},
    }
}

impl Game {
    /// Clears the effect and takes the eligibility from the card that
    /// triggered it.
    fn spend_effect(&mut self)
        ensures
            final(self)@ == old(self)@.effect_spent(),
    {
        match self.special_effect.card_entity {
            Some(e) => {
                if e < self.cards.len() {
                    self.cards[e].from_deck = false;
                }
            },
            None => {},
        }
        self.special_effect = SpecialCardEffect::default();
        assert(self@ =~~= old(self)@.effect_spent());
    }

    /// Lists the face-down cards in the hand of the current player.
    pub fn face_down_cards(&self) -> (out: Vec<usize>)
        requires
            self@.wf(),
        ensures
            out@ == self@.reveal_candidates(),
    {
        let mut out: Vec<usize> = Vec::new();
        let p = match self.turn {
            Some(t) => t.current_player,
            None => {
                return out;
            },
        };
        if p >= self.players.len() {
            return out;
        }
        let hand = &self.players[p].hand.cards;
        assert(hand@ == self@.hand(p));
        let mut i: usize = 0;
        while i < hand.len()
            invariant
                i <= hand.len(),
                out@ == face_down(self.cards@, hand@.subrange(0, i as int)),
            decreases hand.len() - i,
        {
            let c = hand[i];
            assert(hand@.subrange(0, i + 1).drop_last() =~= hand@.subrange(0, i as int));
            if c < self.cards.len() && !self.cards[c].face_up {
                out.push(c);
            }
            i += 1;
        }
        assert(hand@.subrange(0, i as int) =~= hand@);
        out
    }
}

/// Resolves a Reveal in progress with the candidate that chance picked.
///
/// `pick` counts into the face-down cards of the current player's hand, in
/// hand order. The picked card is turned face up, the card that triggered
/// the effect loses its eligibility, and the effect is cleared; the turn
/// does not pass. With no face-down card in hand the effect is consumed
/// all the same. Nothing changes when no Reveal is in progress or `pick`
/// names no candidate.
pub fn resolve_reveal(game: &mut Game, pick: usize) -> (r: Result<Option<usize>, Rejection>)
    requires
        old(game)@.wf(),
    ensures
        r == reveal_result(old(game)@, pick),
        final(game)@ == after_reveal(old(game)@, pick),
        r is Err ==> final(game)@ == old(game)@,
        final(game)@.wf(),
{
    proof {
        lemma_reveal_wf(game@, pick);
    }
    if game.state != AppState::PlayerTurn {
        return Err(Rejection::WrongPhase);
    }
    match game.special_effect.effect_type {
        Some(SpecialEffect::Reveal) => {},
        _ => {
            return Err(Rejection::NoEffect);
        },
    }
    let candidates = game.face_down_cards();
    if candidates.len() == 0 {
        game.spend_effect();
        return Ok(None);
    }
    if pick >= candidates.len() {
        return Err(Rejection::NoSuchChoice);
    }
    let c = candidates[pick];
    proof {
        lemma_face_down(game@.cards, game@.hand(game@.current_player()));
    }
    game.cards[c].face_up = true;
    assert(game@ =~~= old(game)@.with_card(
        c,
        Card { face_up: true, ..old(game)@.cards[c as int] },
    ));
    game.spend_effect();
    Ok(Some(c))
}

/// Resolves a Reveal in progress: one face-down card of the current
/// player's hand, picked at random, is turned face up.
///
/// Whatever chance picks, the outcome is that of `resolve_reveal` for one
/// of the candidates.
pub fn reveal_effect(game: &mut Game) -> (r: Result<Option<usize>, Rejection>)
    requires
        old(game)@.wf(),
    ensures
        exists|pick: usize|
            (old(game)@.reveal_candidates().len() == 0 || pick < old(
                game,
            )@.reveal_candidates().len()) && r == #[trigger] reveal_result(old(game)@, pick)
                && final(game)@ == after_reveal(old(game)@, pick),
        r is Err <==> old(game)@.state != AppState::PlayerTurn || old(game)@.effect.effect_type
            != Some(SpecialEffect::Reveal),
        r is Err ==> final(game)@ == old(game)@,
        final(game)@.wf(),
{
    let candidates = game.face_down_cards();
    let pick = if candidates.len() > 0 {
        random_index(candidates.len())
    } else {
        0
    };
    resolve_reveal(game, pick)
}

/// The cards as they are once every card of `list` lies face down.
pub open spec fn turned_down(cards: Seq<Card>, list: Seq<usize>) -> Seq<Card> {
    Seq::new(
        cards.len(),
        |c: int|
            if list.contains(c as usize) {
                Card { face_up: false, ..cards[c] }
            } else {
                cards[c]
            },
    )
}

/// The player whose hand a Shuffle in progress rearranges; `None` where
/// the effect is abandoned for want of a target with a full hand; or why
/// nothing resolves yet.
pub open spec fn shuffle_result(s: GameView) -> Result<Option<usize>, Rejection> {
    if s.state != AppState::PlayerTurn {
        Err(Rejection::WrongPhase)
    } else if s.effect.effect_type != Some(SpecialEffect::Shuffle) {
        Err(Rejection::NoEffect)
    } else if s.effect.awaiting_target {
        Err(Rejection::EffectPending)
    } else {
        match s.effect.target_player {
            None => Ok(None),
            Some(target) => if !s.has_player(target) || s.hand(target).len() != HAND_SIZE {
                Ok(None)
            } else {
                Ok(Some(target))
            },
        }
    }
}

/// The table after a Shuffle resolved: the target's hand lies face down
/// and the effect is spent. Where the effect is abandoned it is cleared and
/// nothing else changes.
pub open spec fn after_shuffle(s: GameView) -> GameView {
    match shuffle_result(s) {
        Ok(Some(target)) => GameView {
            cards: turned_down(s.cards, s.hand(target)),
            ..s
        }.effect_spent(),
        Ok(None) => s.effect_cleared(),
        Err(_) => s,
    }
}

/// Turning hand cards face down keeps the table well formed.
pub proof fn lemma_turned_down_wf(s: GameView, target: usize, list: Seq<usize>)
    requires
        s.wf(),
        s.has_player(target),
        forall|i: int| 0 <= i < list.len() ==> s.hand(target).contains(#[trigger] list[i]),
    ensures
        (GameView { cards: turned_down(s.cards, list), ..s }).wf(),
{
    let t = GameView { cards: turned_down(s.cards, list), ..s };
    assert(s.lists(s.players[target as int].hand, CardPosition::Hand(target)));
    assert forall|x: int| 0 <= x < t.cards.len() implies t.card_wf(x) by {
        assert(s.card_wf(x));
        if list.contains(x as usize) {
            let i = choose|i: int| 0 <= i < list.len() && list[i] == x as usize;
            assert(s.hand(target).contains(list[i]));
        }
    }
    assert forall|p: int| 0 <= p < t.players.len() implies t.lists(
        t.players[p].hand,
        CardPosition::Hand(p as usize),
    ) by {
        assert(s.lists(s.players[p].hand, CardPosition::Hand(p as usize)));
    }
}

/// A Shuffle keeps the table well formed.
pub proof fn lemma_shuffle_wf(s: GameView)
    requires
        s.wf(),
    ensures
        after_shuffle(s).wf(),
        s.plays_on(after_shuffle(s)),
{
    match shuffle_result(s) {
        Ok(Some(target)) => {
            lemma_turned_down_wf(s, target, s.hand(target));
            lemma_effect_spent_wf(GameView { cards: turned_down(s.cards, s.hand(target)), ..s });
        },
        Ok(None) => {
            lemma_effect_spent_wf(s);
        },
        Err(_) => {},
    }
}

/// Resolves a Shuffle in progress once its target is known.
///
/// The four cards of the target's hand are turned face down and are to be
/// laid out anew: the result lists them in their new order, the card at
/// place `i` going where the `i`-th card of the hand lay. Which order that
/// is depends on chance; it is always a rearrangement of the hand. The hand
/// itself, and every zone, stay as they are. The card that triggered the
/// effect loses its eligibility and the effect is cleared.
///
/// While the effect still waits for its target nothing changes. Where the
/// target is missing or does not hold exactly four cards the effect is
/// abandoned: it is cleared, nothing else changes, and the result is `None`.
pub fn shuffle_effect(game: &mut Game) -> (r: Result<Option<Vec<usize>>, Rejection>)
    requires
        old(game)@.wf(),
    ensures
        match r {
            Ok(Some(order)) => shuffle_result(old(game)@) matches Ok(Some(target))
                && order@.to_multiset() == old(game)@.hand(target).to_multiset(),
            Ok(None) => shuffle_result(old(game)@) == Ok::<Option<usize>, Rejection>(None),
            Err(why) => shuffle_result(old(game)@) == Err::<Option<usize>, Rejection>(why),
        },
        final(game)@ == after_shuffle(old(game)@),
        r is Err ==> final(game)@ == old(game)@,
        final(game)@.wf(),
{
    proof {
        lemma_shuffle_wf(game@);
    }
    if game.state != AppState::PlayerTurn {
        return Err(Rejection::WrongPhase);
    }
    match game.special_effect.effect_type {
        Some(SpecialEffect::Shuffle) => {},
        _ => {
            return Err(Rejection::NoEffect);
        },
    }
    if game.special_effect.awaiting_target {
        return Err(Rejection::EffectPending);
    }
    let target = match game.special_effect.target_player {
        Some(target) => target,
        None => {
            game.special_effect = SpecialCardEffect::default();
            assert(game@ =~~= old(game)@.effect_cleared());
            return Ok(None);
        },
    };
    if target >= game.players.len() || game.players[target].hand.cards.len() != HAND_SIZE {
        game.special_effect = SpecialCardEffect::default();
        assert(game@ =~~= old(game)@.effect_cleared());
        return Ok(None);
    }
    let mut order: Vec<usize> = Vec::new();
    let mut i: usize = 0;
    while i < HAND_SIZE
        invariant
            old(game)@.wf(),
            target < game.players.len(),
            game.players == old(game).players,
            game.players[target as int].hand.cards.len() == HAND_SIZE,
            i <= HAND_SIZE,
            order@ == old(game)@.hand(target).subrange(0, i as int),
            game@ == (GameView {
                cards: turned_down(old(game)@.cards, old(game)@.hand(target).subrange(0, i as int)),
                ..old(game)@
            }),
        decreases HAND_SIZE - i,
    {
        let c = game.players[target].hand.cards[i];
        assert(old(game)@.lists(
            old(game)@.players[target as int].hand,
            CardPosition::Hand(target),
        ));
        assert(c == old(game)@.hand(target)[i as int]);
        game.cards[c].face_up = false;
        order.push(c);
        i += 1;
        assert forall|x: usize|
            old(game)@.hand(target).subrange(0, i as int).contains(x) <==> (old(game)@.hand(
                target,
            ).subrange(0, i - 1).contains(x) || x == c) by {
            let now = old(game)@.hand(target).subrange(0, i as int);
            let before = old(game)@.hand(target).subrange(0, i - 1);
            if before.contains(x) {
                let j = choose|j: int| 0 <= j < before.len() && before[j] == x;
                assert(now[j] == x);
            }
            if x == c {
                assert(now[i - 1] == x);
            }
            if now.contains(x) {
                let j = choose|j: int| 0 <= j < now.len() && now[j] == x;
                if j < i - 1 {
                    assert(before[j] == x);
                }
            }
        }
        assert(game@ =~~= (GameView {
            cards: turned_down(old(game)@.cards, old(game)@.hand(target).subrange(0, i as int)),
            ..old(game)@
        }));
    }
    assert(old(game)@.hand(target).subrange(0, HAND_SIZE as int) =~= old(game)@.hand(target));
    shuffle(&mut order);
    game.spend_effect();
    Ok(Some(order))
}

/// A hand card as it is once it has changed hands to player `p`: face down.
pub open spec fn handed_to(card: Card, p: usize) -> Card {
    Card { position: CardPosition::Hand(p), owner_id: Some(p), face_up: false, ..card }
}

/// The two cards that a Swap in progress exchanges, the rival's first;
/// `None` where the effect is abandoned because the two picks no longer lie
/// in the hands of two different players; or why nothing resolves yet.
pub open spec fn swap_effect_result(s: GameView) -> Result<Option<(usize, usize)>, Rejection> {
    if s.state != AppState::PlayerTurn {
        Err(Rejection::WrongPhase)
    } else if s.effect.effect_type != Some(SpecialEffect::Swap) {
        Err(Rejection::NoEffect)
    } else if s.effect.target_card is None || s.effect.own_card is None {
        Err(Rejection::EffectPending)
    } else {
        let target = s.effect.target_card->0;
        let own = s.effect.own_card->0;
        if s.has_card(target) && s.has_card(own) && s.cards[target as int].position is Hand
            && s.cards[own as int].position is Hand && s.cards[target as int].position
            != s.cards[own as int].position {
            Ok(Some((target, own)))
        } else {
            Ok(None)
        }
    }
}

/// The table after a Swap resolved: the two picked cards have changed
/// hands and lie face down, each hand holds the arriving card in place of
/// the departing one, and the effect is spent. Where the effect is
/// abandoned it is cleared and nothing else changes.
pub open spec fn after_swap_effect(s: GameView) -> GameView {
    match swap_effect_result(s) {
        Ok(Some((target, own))) => {
            let rival = s.cards[target as int].position->Hand_0;
            let owner = s.cards[own as int].position->Hand_0;
            let rival_hand = s.hand(rival);
            let owner_hand = s.hand(owner);
            GameView {
                cards: s.cards.update(target as int, handed_to(s.cards[target as int], owner))
                    .update(own as int, handed_to(s.cards[own as int], rival)),
                ..s
            }.with_hand(rival, rival_hand.remove(rival_hand.index_of(target)).push(own)).with_hand(
                owner,
                owner_hand.remove(owner_hand.index_of(own)).push(target),
            ).effect_spent()
        },
        Ok(None) => s.effect_cleared(),
        Err(_) => s,
    }
}

/// A Swap keeps the table well formed.
pub proof fn lemma_swap_effect_wf(s: GameView)
    requires
        s.wf(),
    ensures
        after_swap_effect(s).wf(),
        s.plays_on(after_swap_effect(s)),
{
    match swap_effect_result(s) {
        Ok(Some((target, own))) => {
            let rival = s.cards[target as int].position->Hand_0;
            let owner = s.cards[own as int].position->Hand_0;
            let rival_hand = s.hand(rival);
            let owner_hand = s.hand(owner);
            assert(s.card_wf(target as int));
            assert(s.card_wf(own as int));
            assert(s.lists(s.players[rival as int].hand, CardPosition::Hand(rival)));
            assert(s.lists(s.players[owner as int].hand, CardPosition::Hand(owner)));
            let k = rival_hand.index_of(target);
            let m = owner_hand.index_of(own);
            assert(rival_hand.contains(target));
            assert(owner_hand.contains(own));
            assert(!rival_hand.contains(own));
            assert(!owner_hand.contains(target));
            lemma_replace_entry(rival_hand, k, own);
            lemma_replace_entry(owner_hand, m, target);
            let rival_hand2 = rival_hand.remove(k).push(own);
            let owner_hand2 = owner_hand.remove(m).push(target);
            let t = GameView {
                cards: s.cards.update(target as int, handed_to(s.cards[target as int], owner))
                    .update(own as int, handed_to(s.cards[own as int], rival)),
                ..s
            }.with_hand(rival, rival_hand2).with_hand(owner, owner_hand2);
            assert(t.players[rival as int].hand == rival_hand2);
            assert(t.players[owner as int].hand == owner_hand2);
            assert forall|q: int| 0 <= q < t.players.len() implies t.players[q].hand.len()
                <= HAND_SIZE && t.lists(t.players[q].hand, CardPosition::Hand(q as usize)) by {
                assert(s.lists(s.players[q].hand, CardPosition::Hand(q as usize)));
                if q == rival {
                    assert forall|i: int| 0 <= i < rival_hand2.len() implies t.has_card(
                        rival_hand2[i],
                    ) && t.cards[rival_hand2[i] as int].position == CardPosition::Hand(rival) by {
                        if rival_hand2[i] != own {
                            assert(rival_hand.contains(rival_hand2[i]));
                        }
                    }
                } else if q == owner {
                    assert forall|i: int| 0 <= i < owner_hand2.len() implies t.has_card(
                        owner_hand2[i],
                    ) && t.cards[owner_hand2[i] as int].position == CardPosition::Hand(owner) by {
                        if owner_hand2[i] != target {
                            assert(owner_hand.contains(owner_hand2[i]));
                        }
                    }
                }
            }
            assert forall|x: int| 0 <= x < t.cards.len() implies t.card_wf(x) by {
                assert(s.card_wf(x));
                if x != target && x != own {
                    if let CardPosition::Hand(q) = s.cards[x].position {
                        if q == rival {
                            let j = choose|j: int|
                                0 <= j < rival_hand.len() && rival_hand[j] == x as usize;
                            assert(rival_hand2.contains(rival_hand[j]));
                        } else if q == owner {
                            let j = choose|j: int|
                                0 <= j < owner_hand.len() && owner_hand[j] == x as usize;
                            assert(owner_hand2.contains(owner_hand[j]));
                        }
                    }
                }
            }
            assert(t.wf());
            lemma_effect_spent_wf(t);
        },
        Ok(None) => {
            lemma_effect_spent_wf(s);
        },
        Err(_) => {},
    }
}

/// Resolves a Swap in progress once both cards are picked.
///
/// The rival's card and the player's own card change hands: each takes the
/// other's owner and hand, both lie face down, and each hand list holds the
/// arriving card in place of the departing one. The card that triggered the
/// effect loses its eligibility and the effect is cleared. The result names
/// the two cards, the rival's first.
///
/// While a pick is still missing nothing changes. Where the two picks no
/// longer lie in the hands of two different players the effect is
/// abandoned: it is cleared, nothing else changes, and the result is `None`.
pub fn swap_effect(game: &mut Game) -> (r: Result<Option<(usize, usize)>, Rejection>)
    requires
        old(game)@.wf(),
    ensures
        r == swap_effect_result(old(game)@),
        final(game)@ == after_swap_effect(old(game)@),
        r is Err ==> final(game)@ == old(game)@,
        final(game)@.wf(),
{
    proof {
        lemma_swap_effect_wf(game@);
    }
    if game.state != AppState::PlayerTurn {
        return Err(Rejection::WrongPhase);
    }
    match game.special_effect.effect_type {
        Some(SpecialEffect::Swap) => {},
        _ => {
            return Err(Rejection::NoEffect);
        },
    }
    let (target, own) = match (game.special_effect.target_card, game.special_effect.own_card) {
        (Some(target), Some(own)) => (target, own),
        _ => {
            return Err(Rejection::EffectPending);
        },
    };
    let n = game.cards.len();
    let mut hands: Option<(usize, usize)> = None;
    if target < n && own < n {
        match (game.cards[target].position, game.cards[own].position) {
            (CardPosition::Hand(rival), CardPosition::Hand(owner)) => {
                if rival != owner {
                    hands = Some((rival, owner));
                }
            },
            _ => {},
        }
    }
    let (rival, owner) = match hands {
        Some(pair) => pair,
        None => {
            game.special_effect = SpecialCardEffect::default();
            assert(game@ =~~= old(game)@.effect_cleared());
            return Ok(None);
        },
    };
    proof {
        assert(game@.card_wf(target as int));
        assert(game@.card_wf(own as int));
        assert(game@.lists(game@.players[rival as int].hand, CardPosition::Hand(rival)));
        assert(game@.lists(game@.players[owner as int].hand, CardPosition::Hand(owner)));
        assert(game@.players[rival as int].hand == game.players[rival as int].hand.cards@);
        assert(game@.players[owner as int].hand == game.players[owner as int].hand.cards@);
    }
    game.move_to(target, CardPosition::Hand(owner));
    proof {
        let owner_hand = old(game)@.hand(owner);
        let grown = owner_hand.push(target);
        assert(game@.hand(owner) == grown);
        assert(!owner_hand.contains(target));
        assert forall|i: int, j: int|
            0 <= i < grown.len() && 0 <= j < grown.len() && i != j implies grown[i] != grown[j] by {
            if i < owner_hand.len() {
                assert(owner_hand.contains(grown[i]));
            }
            if j < owner_hand.len() {
                assert(owner_hand.contains(grown[j]));
            }
        }
        let m = owner_hand.index_of(own);
        assert(grown[m] == own);
        assert(grown.index_of(own) == m);
        assert(grown.remove(m) =~= owner_hand.remove(m).push(target));
    }
    game.move_to(own, CardPosition::Hand(rival));
    game.cards[target].face_up = false;
    game.cards[own].face_up = false;
    assert(game@ =~~= (GameView {
        cards: old(game)@.cards.update(
            target as int,
            handed_to(old(game)@.cards[target as int], owner),
        ).update(own as int, handed_to(old(game)@.cards[own as int], rival)),
        ..old(game)@
    }.with_hand(
        rival,
        old(game)@.hand(rival).remove(old(game)@.hand(rival).index_of(target)).push(own),
    ).with_hand(
        owner,
        old(game)@.hand(owner).remove(old(game)@.hand(owner).index_of(own)).push(target),
    )));
    game.spend_effect();
    Ok(Some((target, own)))
}

/// Whether a click on card `c` serves as the pick that the effect in
/// progress is waiting for, or why not. The first pick of a Swap, and the
/// pick of a Shuffle, must lie in a rival's hand; the second pick of a Swap
/// in the current player's own.
pub open spec fn target_click_result(s: GameView, c: usize) -> Result<(), Rejection> {
    if s.state != AppState::PlayerTurn {
        Err(Rejection::WrongPhase)
    } else if !s.effect.awaiting() {
        Err(Rejection::NoEffect)
    } else if !s.has_card(c) {
        Err(Rejection::NoSuchCard)
    } else {
        match s.cards[c as int].position {
            CardPosition::Hand(holder) => if pick_fits(s.effect, holder, s.current_player()) {
                Ok(())
            } else {
                Err(Rejection::WrongTargetOwner)
            },
            _ => Err(Rejection::CardNotInHand),
        }
    }
}

/// Whether a card held by `holder` is what the effect is waiting for, with
/// `current` the player who is up: a rival's card while the effect waits for
/// its target, one of the player's own afterwards.
pub open spec fn pick_fits(effect: SpecialCardEffect, holder: usize, current: usize) -> bool {
    if effect.awaiting_target {
        holder != current
    } else {
        holder == current
    }
}

/// The effect after card `c`, held by `holder`, was accepted as a pick.
pub open spec fn effect_after_pick(
    effect: SpecialCardEffect,
    c: usize,
    holder: usize,
) -> SpecialCardEffect {
    if effect.awaiting_target {
        if effect.effect_type == Some(SpecialEffect::Swap) {
            SpecialCardEffect {
                target_card: Some(c),
                awaiting_target: false,
                awaiting_own_card: true,
                ..effect
            }
        } else {
            SpecialCardEffect {
                target_card: Some(c),
                target_player: Some(holder),
                awaiting_target: false,
                ..effect
            }
        }
    } else {
        SpecialCardEffect { own_card: Some(c), awaiting_own_card: false, ..effect }
    }
}

/// The table after a click on card `c` while an effect waits for a pick.
pub open spec fn after_target_click(s: GameView, c: usize) -> GameView {
    if target_click_result(s, c) is Ok {
        GameView {
            effect: effect_after_pick(s.effect, c, s.cards[c as int].position->Hand_0),
            ..s
        }
    } else {
        s
    }
}

/// Accepting a pick keeps the table well formed.
pub proof fn lemma_target_click_wf(s: GameView, c: usize)
    requires
        s.wf(),
    ensures
        after_target_click(s, c).wf(),
        s.plays_on(after_target_click(s, c)),
{
    lemma_effect_change_wf(s, after_target_click(s, c).effect);
    assert(after_target_click(s, c) == (GameView { effect: after_target_click(s, c).effect, ..s }));
}

/// Offers card `c` as the pick that the effect in progress is waiting for.
///
/// A rival's hand card is accepted as the target of a Shuffle or as the
/// first pick of a Swap, after which the Swap waits for one of the current
/// player's own hand cards. Any other card is refused and the effect keeps
/// waiting.
pub fn handle_target_click(game: &mut Game, c: usize) -> (r: Result<(), Rejection>)
    requires
        old(game)@.wf(),
    ensures
        r == target_click_result(old(game)@, c),
        final(game)@ == after_target_click(old(game)@, c),
        r is Err ==> final(game)@ == old(game)@,
        final(game)@.wf(),
{
    proof {
        lemma_target_click_wf(game@, c);
    }
    if game.state != AppState::PlayerTurn {
        return Err(Rejection::WrongPhase);
    }
    if !game.special_effect.is_awaiting() {
        return Err(Rejection::NoEffect);
    }
    let turn = game.turn.unwrap();
    if c >= game.cards.len() {
        return Err(Rejection::NoSuchCard);
    }
    let holder = match game.cards[c].position {
        CardPosition::Hand(holder) => holder,
        _ => {
            return Err(Rejection::CardNotInHand);
        },
    };
    let rival = holder != turn.current_player;
    if game.special_effect.awaiting_target != rival {
        return Err(Rejection::WrongTargetOwner);
    }
    if game.special_effect.awaiting_target {
        game.special_effect.target_card = Some(c);
        game.special_effect.awaiting_target = false;
        match game.special_effect.effect_type {
            Some(SpecialEffect::Swap) => {
                game.special_effect.awaiting_own_card = true;
            },
            _ => {
                game.special_effect.target_player = Some(holder);
            },
        }
    } else {
        game.special_effect.own_card = Some(c);
        game.special_effect.awaiting_own_card = false;
    }
    assert(game@ =~~= after_target_click(old(game)@, c));
    Ok(())
}

} // verus!
