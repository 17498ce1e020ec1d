//! Moving a card from one zone to another.

use vstd::prelude::*;
use crate::card::{Card, CardPosition};
use crate::gamestate::{Game, GameView};
use crate::resolve::position_in;

verus! {

/// The owner a card has in a zone: the player on whose side the zone is,
/// or nobody.
pub open spec fn owner_in(zone: CardPosition) -> Option<usize> {
    match zone {
        CardPosition::Hand(p) => Some(p),
        CardPosition::DrawnCard(p) => Some(p),
        _ => None,
    }
}

impl GameView {
    /// The list that holds the cards of `zone`, if the zone keeps one. The
    /// drawn-card slot keeps none: its card is known by its tag alone.
    pub open spec fn container(self, zone: CardPosition) -> Option<Seq<usize>> {
        match zone {
            CardPosition::Deck => self.deck,
            CardPosition::Hand(p) => if self.has_player(p) {
                Some(self.hand(p))
            } else {
                None
            },
            CardPosition::Graveyard => self.graveyard,
            CardPosition::DrawnCard(_) => Some(Seq::empty()),
        }
    }

    /// The table with the list of `zone` replaced.
    pub open spec fn with_container(self, zone: CardPosition, list: Seq<usize>) -> GameView {
        match zone {
            CardPosition::Deck => GameView { deck: Some(list), ..self },
            CardPosition::Hand(p) => self.with_hand(p, list),
            CardPosition::Graveyard => GameView { graveyard: Some(list), ..self },
            CardPosition::DrawnCard(_) => self,
        }
    }

    /// Whether card `c` can be moved to `zone`: it stands, once, in the
    /// list of the zone it is in, and `zone` is there to take it.
    pub open spec fn can_move(self, c: usize, zone: CardPosition) -> bool {
        let from = self.cards[c as int].position;
        &&& self.has_card(c)
        &&& self.container(from) is Some
        &&& self.container(from)->0.no_duplicates()
        &&& from is DrawnCard || self.container(from)->0.contains(c)
        &&& self.container(zone) is Some
    }

    /// The table with card `c` taken off the list of the zone it is in.
    pub open spec fn taken_out(self, c: usize) -> GameView {
        let from = self.cards[c as int].position;
        if from is DrawnCard {
            self
        } else {
            let list = self.container(from)->0;
            self.with_container(from, list.remove(list.index_of(c)))
        }
    }

    /// The table with card `c` moved to `zone`: off the list of its old
    /// zone, at the end of the list of the new one, with the tag and the
    /// owner that go with the new zone. Nothing else about the card changes.
    pub open spec fn moved(self, c: usize, zone: CardPosition) -> GameView {
        let out = self.taken_out(c);
        out.with_container(zone, out.container(zone)->0.push(c)).with_card(
            c,
            Card { position: zone, owner_id: owner_in(zone), ..self.cards[c as int] },
        )
    }
}

impl Game {
    /// Moves card `c` to `zone`, in one step: the card leaves the list of
    /// its old zone and joins the end of the list of the new one, and its
    /// tag and owner change to match. The face of the card is left alone.
    pub(crate) fn move_to(&mut self, c: usize, zone: CardPosition)
        requires
            old(self)@.can_move(c, zone),
        ensures
            final(self)@ == old(self)@.moved(c, zone),
    {
        match self.cards[c].position {
            CardPosition::Deck => {
                match &mut self.deck {
                    Some(deck) => {
                        let k = position_in(&deck.cards_values, c).unwrap();
                        deck.cards_values.remove(k);
                    },
                    None => {},
                }
            },
            CardPosition::Hand(p) => {
                let k = position_in(&self.players[p].hand.cards, c).unwrap();
                self.players[p].hand.cards.remove(k);
            },
            CardPosition::Graveyard => {
                match &mut self.graveyard {
                    Some(graveyard) => {
                        let k = position_in(&graveyard.cards, c).unwrap();
                        graveyard.cards.remove(k);
                    },
                    None => {},
                }
            },
            CardPosition::DrawnCard(_) => {},
        }
        assert(self@ =~~= old(self)@.taken_out(c));
        match zone {
            CardPosition::Deck => {
                match &mut self.deck {
                    Some(deck) => {
                        deck.cards_values.push(c);
                    },
                    None => {},
                }
                self.cards[c].owner_id = None;
            },
            CardPosition::Hand(p) => {
                self.players[p].hand.cards.push(c);
                self.cards[c].owner_id = Some(p);
            },
            CardPosition::Graveyard => {
                match &mut self.graveyard {
                    Some(graveyard) => {
                        graveyard.cards.push(c);
                    },
                    None => {},
                }
                self.cards[c].owner_id = None;
            },
            CardPosition::DrawnCard(p) => {
                self.cards[c].owner_id = Some(p);
            },
        }
        self.cards[c].position = zone;
        assert(self@ =~~= old(self)@.moved(c, zone));
    }
}

} // verus!
