//! The draw pile, and the making of the cards at the start of a round.

use vstd::prelude::*;
use crate::card::{Card, CardPosition, Suit, DECK_SIZE, VALUES_PER_SUIT};
use crate::gamestate::{AppState, Game, GameView, Rejection};
use crate::random::shuffle;

verus! {

/// The cards left to draw, by card index. The next card to draw comes first.
pub struct Deck {
    pub cards_values: Vec<usize>,
}

/// The cards of one suit, by rising value.
pub open spec fn suit_run(suit: Suit) -> Seq<(Suit, u8)> {
    Seq::new(VALUES_PER_SUIT as nat, |i: int| (suit, (i + 1) as u8))
}

/// The full deck in its factory order: four suits of twelve values each.
pub open spec fn full_deck() -> Seq<(Suit, u8)> {
    suit_run(Suit::Coarse) + suit_run(Suit::Cup) + suit_run(Suit::Gold) + suit_run(Suit::Sword)
}

/// Appends the cards of one suit, by rising value.
fn push_suit(cards: &mut Vec<(Suit, u8)>, suit: Suit)
    ensures
        final(cards)@ == old(cards)@ + suit_run(suit),
{
    let mut value: u8 = 1;
    while value <= VALUES_PER_SUIT
        invariant
            1 <= value <= VALUES_PER_SUIT + 1,
            cards@ == old(cards)@ + suit_run(suit).subrange(0, value - 1),
        decreases VALUES_PER_SUIT + 1 - value,
    {
        cards.push((suit, value));
        value += 1;
        assert(cards@ =~= old(cards)@ + suit_run(suit).subrange(0, value - 1));
    }
    assert(suit_run(suit).subrange(0, VALUES_PER_SUIT as int) =~= suit_run(suit));
}

/// Builds the full deck in its factory order.
pub fn new_deck() -> (cards: Vec<(Suit, u8)>)
    ensures
        cards@ == full_deck(),
        cards@.len() == DECK_SIZE,
{
    let mut cards: Vec<(Suit, u8)> = Vec::new();
    push_suit(&mut cards, Suit::Coarse);
    push_suit(&mut cards, Suit::Cup);
    push_suit(&mut cards, Suit::Gold);
    push_suit(&mut cards, Suit::Sword);
    assert(cards@ =~= full_deck());
    cards
}

/// Whether the cards of a round may be made now, or why not.
pub open spec fn spawn_result(s: GameView) -> Result<(), Rejection> {
    if s.state != AppState::Setup {
        Err(Rejection::WrongPhase)
    } else if s.cards.len() > 0 || s.deck is Some {
        Err(Rejection::AlreadySetUp)
    } else {
        Ok(())
    }
}

/// The table once the cards listed in `order` have been made: each lies
/// face down in the deck, unowned, and the deck holds them in that order.
pub open spec fn after_spawn(s: GameView, order: Seq<(Suit, u8)>) -> GameView {
    if spawn_result(s) is Ok {
        GameView {
            cards: Seq::new(order.len(), |i: int| Card::fresh(order[i].0, order[i].1)),
            deck: Some(Seq::new(order.len(), |i: int| i as usize)),
            ..s
        }
    } else {
        s
    }
}

/// Making the cards keeps the table well formed.
pub proof fn lemma_spawn_wf(s: GameView, order: Seq<(Suit, u8)>)
    requires
        s.wf(),
        order.len() <= usize::MAX,
    ensures
        after_spawn(s, order).wf(),
{
    let t = after_spawn(s, order);
    if spawn_result(s) is Ok {
        let d = t.deck->0;
        assert forall|x: int| 0 <= x < t.cards.len() implies t.card_wf(x) by {
            assert(d[x] == x as usize);
        }
        assert forall|p: int| 0 <= p < t.players.len() implies t.players[p].hand.len() == 0 by {
            assert(s.lists(s.players[p].hand, CardPosition::Hand(p as usize)));
            if s.players[p].hand.len() > 0 {
                assert(s.has_card(s.players[p].hand[0]));
            }
        }
        if let Some(g) = s.graveyard {
            if g.len() > 0 {
                assert(s.has_card(g[0]));
            }
        }
    }
}

/// Makes the cards of a round in the given order and stacks them as the
/// deck, first card on top.
///
/// Refused, with nothing changed, outside the setup phase and when the
/// table already holds cards or a deck.
pub fn spawn_cards_in_order(game: &mut Game, order: &Vec<(Suit, u8)>) -> (r: Result<
    (),
    Rejection,
>)
    requires
        old(game)@.wf(),
    ensures
        r == spawn_result(old(game)@),
        final(game)@ == after_spawn(old(game)@, order@),
        r is Err ==> final(game)@ == old(game)@,
        final(game)@.wf(),
{
    proof {
        assert(order@.len() == order.len());
        lemma_spawn_wf(game@, order@);
    }
    if game.state != AppState::Setup {
        return Err(Rejection::WrongPhase);
    }
    if game.cards.len() > 0 || game.deck.is_some() {
        return Err(Rejection::AlreadySetUp);
    }
    let mut pile: Vec<usize> = Vec::new();
    let mut i: usize = 0;
    while i < order.len()
        invariant
            i <= order.len(),
            pile@ == Seq::new(i as nat, |k: int| k as usize),
            game@ == (GameView {
                cards: Seq::new(i as nat, |k: int| Card::fresh(order@[k].0, order@[k].1)),
                ..old(game)@
            }),
        decreases order.len() - i,
    {
        let (suit, value) = order[i];
        game.cards.push(Card::new(suit, value));
        pile.push(i);
        i += 1;
        assert(pile@ =~= Seq::new(i as nat, |k: int| k as usize));
        assert(game@ =~~= (GameView {
            cards: Seq::new(i as nat, |k: int| Card::fresh(order@[k].0, order@[k].1)),
            ..old(game)@
        }));
    }
    game.deck = Some(Deck { cards_values: pile });
    assert(game@ =~~= after_spawn(old(game)@, order@));
    Ok(())
}

/// Makes the forty-eight cards of a round, shuffled, and stacks them as the
/// deck.
///
/// The order depends on chance. Whatever it is, the table is as
/// `spawn_cards_in_order` leaves it for some rearrangement of the full deck.
pub fn spawn_cards(game: &mut Game) -> (r: Result<(), Rejection>)
    requires
        old(game)@.wf(),
    ensures
        r == spawn_result(old(game)@),
        exists|order: Seq<(Suit, u8)>|
            order.to_multiset() == full_deck().to_multiset() && final(game)@
                == #[trigger] after_spawn(old(game)@, order),
        r is Ok ==> final(game)@.cards.len() == DECK_SIZE,
        r is Err ==> final(game)@ == old(game)@,
        final(game)@.wf(),
{
    let mut order = new_deck();
    shuffle(&mut order);
    proof {
        broadcast use vstd::seq_lib::group_to_multiset_ensures;

        assert(order@.len() == order@.to_multiset().len());
        assert(full_deck().len() == full_deck().to_multiset().len());
    }
    spawn_cards_in_order(game, &order)
}

} // verus!
