//! Hands, and the deal that opens a round.

use vstd::prelude::*;
use crate::card::{Card, CardPosition, HAND_SIZE};
use crate::gamestate::{AppState, Game, GameView, Rejection};

verus! {

/// The cards a player holds, by card index.
pub struct Hand {
    pub cards: Vec<usize>,
}

/// How many of the local player's cards are dealt face up.
pub const OPEN_CARDS: usize = 2;

/// A card as it is once dealt to player `p`.
pub open spec fn dealt_to(card: Card, p: usize, face_up: bool) -> Card {
    Card { owner_id: Some(p), position: CardPosition::Hand(p), face_up, ..card }
}

/// The table once the head of the deck has been dealt to player `p`.
pub open spec fn deal_one(s: GameView, p: usize, face_up: bool) -> GameView {
    let c = s.deck->0.first();
    GameView {
        cards: s.cards.update(c as int, dealt_to(s.cards[c as int], p, face_up)),
        deck: Some(s.deck->0.remove(0)),
        ..s
    }.with_hand(p, s.hand(p).push(c))
}

/// The table once `count` cards have been dealt to player `p`, one by one
/// from the head of the deck. The first cards of the local player are
/// dealt face up, all others face down.
pub open spec fn deal_cards(s: GameView, p: usize, count: nat) -> GameView
    decreases count,
{
    if count == 0 {
        s
    } else {
        deal_one(
            deal_cards(s, p, (count - 1) as nat),
            p,
            s.players[p as int].is_local_player && count - 1 < OPEN_CARDS,
        )
    }
}

/// The table once player `p` has been dealt a hand. A player for whom the
/// deck no longer holds a full hand is passed over.
pub open spec fn deal_to(s: GameView, p: usize) -> GameView {
    if s.deck is Some && s.deck->0.len() >= HAND_SIZE {
        deal_cards(s, p, HAND_SIZE as nat)
    } else {
        s
    }
}

/// The table once the first `seats` players have been dealt their hands, in
/// seat order.
pub open spec fn dealt(s: GameView, seats: nat) -> GameView
    decreases seats,
{
    if seats == 0 {
        s
    } else {
        deal_to(dealt(s, (seats - 1) as nat), (seats - 1) as usize)
    }
}

/// Whether the hands may be dealt now, or why not.
pub open spec fn deal_result(s: GameView) -> Result<(), Rejection> {
    if s.state != AppState::Setup {
        Err(Rejection::WrongPhase)
    } else if s.deck is None {
        Err(Rejection::NoDeck)
    } else if exists|p: int| 0 <= p < s.players.len() && (#[trigger] s.players[p]).hand.len() > 0 {
        Err(Rejection::HandsNotEmpty)
    } else {
        Ok(())
    }
}

/// The table after the deal.
pub open spec fn after_deal(s: GameView) -> GameView {
    if deal_result(s) is Ok {
        dealt(s, s.players.len())
    } else {
        s
    }
}

/// What dealing leaves alone among the cards: how many there are, what
/// each is, and everything about a card that was not in the deck.
pub open spec fn same_cards(s: GameView, t: GameView) -> bool {
    &&& t.cards.len() == s.cards.len()
    &&& forall|c: int|
        #![trigger t.cards[c]]
        0 <= c < s.cards.len() ==> t.cards[c].value == s.cards[c].value && t.cards[c].suit
            == s.cards[c].suit && (s.cards[c].position is Deck || t.cards[c] == s.cards[c])
}

/// What dealing leaves alone: the phase, the turn, the cards outside the
/// deck, the seats and, but for one player, the hands.
pub open spec fn same_seats(s: GameView, t: GameView, p: usize) -> bool {
    &&& t.state == s.state
    &&& t.turn == s.turn
    &&& t.effect == s.effect
    &&& t.graveyard == s.graveyard
    &&& t.double_click == s.double_click
    &&& same_cards(s, t)
    &&& t.players.len() == s.players.len()
    &&& forall|q: int|
        #![trigger t.players[q]]
        0 <= q < s.players.len() ==> t.players[q].is_local_player
            == s.players[q].is_local_player && (q != p ==> t.players[q].hand
            == s.players[q].hand)
}

/// Dealing one card keeps the table well formed.
pub proof fn lemma_deal_one_wf(s: GameView, p: usize, face_up: bool)
    requires
        s.wf(),
        s.has_player(p),
        s.deck is Some,
        s.deck->0.len() > 0,
        s.hand(p).len() < HAND_SIZE,
    ensures
        deal_one(s, p, face_up).wf(),
        deal_one(s, p, face_up).deck is Some,
        deal_one(s, p, face_up).deck->0.len() == s.deck->0.len() - 1,
        deal_one(s, p, face_up).hand(p).len() == s.hand(p).len() + 1,
        same_seats(s, deal_one(s, p, face_up), p),
{
    let t = deal_one(s, p, face_up);
    let d = s.deck->0;
    let c = d.first();
    let d2 = d.remove(0);
    let hand = s.hand(p);
    let hand2 = hand.push(c);
    assert(s.lists(s.players[p as int].hand, CardPosition::Hand(p)));
    assert forall|i: int| 0 <= i < d2.len() implies d2[i] == d[i + 1] by {}
    assert(t.lists(d2, CardPosition::Deck));
    assert(t.players[p as int].hand == hand2);
    assert forall|q: int| 0 <= q < t.players.len() implies t.players[q].hand.len() <= HAND_SIZE
        && t.lists(t.players[q].hand, CardPosition::Hand(q as usize)) by {
        assert(s.lists(s.players[q].hand, CardPosition::Hand(q as usize)));
        if q == p {
            assert forall|i: int, j: int|
                0 <= i < hand2.len() && 0 <= j < hand2.len() && i != j implies hand2[i]
                != hand2[j] by {
                if i < hand.len() {
                    assert(s.cards[hand[i] as int].position == CardPosition::Hand(p));
                }
                if j < hand.len() {
                    assert(s.cards[hand[j] as int].position == CardPosition::Hand(p));
                }
            }
        }
    }
    assert forall|x: int| 0 <= x < t.cards.len() implies t.card_wf(x) by {
        assert(s.card_wf(x));
        if x == c {
            assert(hand2[hand.len() as int] == c);
        } else {
            match s.cards[x].position {
                CardPosition::Deck => {
                    let i = choose|i: int| 0 <= i < d.len() && d[i] == x as usize;
                    assert(d2[i - 1] == x as usize);
                },
                CardPosition::Hand(q) => {
                    if q == p {
                        let i = choose|i: int| 0 <= i < hand.len() && hand[i] == x as usize;
                        assert(hand2[i] == x as usize);
                    }
                },
                _ => {},
            }
        }
    }
}

/// Dealing several cards to one player keeps the table well formed, as long
/// as the deck holds them and the hand has room for them.
pub proof fn lemma_deal_cards(s: GameView, p: usize, count: nat)
    requires
        s.wf(),
        s.has_player(p),
        s.deck is Some,
        s.deck->0.len() >= count,
        s.hand(p).len() + count <= HAND_SIZE,
    ensures
        deal_cards(s, p, count).wf(),
        deal_cards(s, p, count).deck is Some,
        deal_cards(s, p, count).deck->0.len() == s.deck->0.len() - count,
        deal_cards(s, p, count).hand(p).len() == s.hand(p).len() + count,
        same_seats(s, deal_cards(s, p, count), p),
    decreases count,
{
    if count > 0 {
        lemma_deal_cards(s, p, (count - 1) as nat);
        lemma_deal_one_wf(
            deal_cards(s, p, (count - 1) as nat),
            p,
            s.players[p as int].is_local_player && count - 1 < OPEN_CARDS,
        );
    }
}

/// Dealing to the first `seats` players keeps the table well formed and
/// leaves the hands of the others empty.
pub proof fn lemma_dealt(s: GameView, seats: nat)
    requires
        s.wf(),
        s.deck is Some,
        seats <= s.players.len(),
        forall|p: int| 0 <= p < s.players.len() ==> (#[trigger] s.players[p]).hand.len() == 0,
    ensures
        dealt(s, seats).wf(),
        dealt(s, seats).deck is Some,
        dealt(s, seats).state == s.state,
        dealt(s, seats).turn == s.turn,
        dealt(s, seats).effect == s.effect,
        dealt(s, seats).graveyard == s.graveyard,
        dealt(s, seats).double_click == s.double_click,
        same_cards(s, dealt(s, seats)),
        dealt(s, seats).players.len() == s.players.len(),
        forall|q: int|
            #![trigger dealt(s, seats).players[q]]
            0 <= q < s.players.len() ==> dealt(s, seats).players[q].is_local_player
                == s.players[q].is_local_player && (q >= seats ==> dealt(
                s,
                seats,
            ).players[q].hand.len() == 0),
    decreases seats,
{
    if seats > 0 {
        let before = dealt(s, (seats - 1) as nat);
        lemma_dealt(s, (seats - 1) as nat);
        assert(before.players[seats - 1].hand.len() == 0);
        if before.deck->0.len() >= HAND_SIZE {
            lemma_deal_cards(before, (seats - 1) as usize, HAND_SIZE as nat);
        }
    }
}

/// The deal keeps the table well formed, and leaves alone the phase, the
/// turn and every card that was not in the deck.
pub proof fn lemma_deal_wf(s: GameView)
    requires
        s.wf(),
    ensures
        after_deal(s).wf(),
        after_deal(s).state == s.state,
        after_deal(s).turn == s.turn,
        same_cards(s, after_deal(s)),
        s.plays_on(after_deal(s)),
{
    if deal_result(s) is Ok {
        lemma_dealt(s, s.players.len());
    }
}

impl Game {
    /// Whether no player holds a card.
    fn hands_empty(&self) -> (r: bool)
        ensures
            r == forall|p: int|
                0 <= p < self@.players.len() ==> (#[trigger] self@.players[p]).hand.len() == 0,
    {
        let mut p: usize = 0;
        while p < self.players.len()
            invariant
                p <= self.players.len(),
                forall|q: int| 0 <= q < p ==> (#[trigger] self@.players[q]).hand.len() == 0,
            decreases self.players.len() - p,
        {
            if self.players[p].hand.cards.len() > 0 {
                assert(self@.players[p as int].hand.len() > 0);
                return false;
            }
            p += 1;
        }
        true
    }
}

/// Deals the opening hands: four cards to each player in seat order, taken
/// one by one from the head of the deck.
///
/// The cards go into the player's hand in the order dealt, owned by the
/// player. The first two cards of the local player lie face up, all others
/// face down. A player for whom the deck no longer holds four cards gets
/// none. Refused, with nothing changed, outside the setup phase, without a
/// deck, and while any hand still holds cards.
pub fn deal_initial_hands(game: &mut Game) -> (r: Result<(), Rejection>)
    requires
        old(game)@.wf(),
    ensures
        r == deal_result(old(game)@),
        final(game)@ == after_deal(old(game)@),
        r is Err ==> final(game)@ == old(game)@,
        final(game)@.wf(),
{
    if game.state != AppState::Setup {
        return Err(Rejection::WrongPhase);
    }
    if game.deck.is_none() {
        return Err(Rejection::NoDeck);
    }
    if !game.hands_empty() {
        return Err(Rejection::HandsNotEmpty);
    }
    let seats = game.players.len();
    let mut p: usize = 0;
    proof {
        lemma_dealt(game@, 0);
    }
    while p < seats
        invariant
            old(game)@.wf(),
            old(game)@.deck is Some,
            forall|q: int|
                0 <= q < old(game)@.players.len() ==> (#[trigger] old(game)@.players[q]).hand.len()
                    == 0,
            seats == old(game)@.players.len(),
            seats == game.players.len(),
            p <= seats,
            game@ == dealt(old(game)@, p as nat),
        decreases seats - p,
    {
        let ghost before = game@;
        proof {
            lemma_dealt(old(game)@, p as nat);
            lemma_dealt(old(game)@, (p + 1) as nat);
            assert(before.players[p as int].hand.len() == 0);
        }
        if game.deck_len() >= HAND_SIZE {
            let local = game.players[p].is_local_player;
            let mut count: usize = 0;
            while count < HAND_SIZE
                invariant
                    before.wf(),
                    before.has_player(p),
                    before.deck is Some,
                    before.deck->0.len() >= HAND_SIZE,
                    before.hand(p).len() == 0,
                    local == before.players[p as int].is_local_player,
                    count <= HAND_SIZE,
                    seats == game.players.len(),
                    game@ == deal_cards(before, p, count as nat),
                decreases HAND_SIZE - count,
            {
                let ghost now = game@;
                proof {
                    lemma_deal_cards(before, p, count as nat);
                    assert(now.lists(now.deck->0, CardPosition::Deck));
                    assert(now.has_card(now.deck->0[0]));
                    assert(now.deck->0.index_of(now.deck->0[0]) == 0);
                }
                let c = game.deck_head().unwrap();
                game.move_to(c, CardPosition::Hand(p));
                game.cards[c].face_up = local && count < OPEN_CARDS;
                assert(game@ =~~= deal_one(now, p, local && count < OPEN_CARDS));
                assert(game@.players.len() == game.players.len());
                count += 1;
            }
        }
        p += 1;
    }
    proof {
        lemma_dealt(old(game)@, seats as nat);
    }
    Ok(())
}

} // verus!
