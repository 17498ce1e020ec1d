//! The table: every piece of state the rules read or change, its
//! mathematical model, and the invariant that ties cards to zones.

use vstd::prelude::*;
use crate::card::{Card, CardPosition, DoubleClick, DOUBLE_CLICK_LIMIT, HAND_SIZE};
use crate::deck::Deck;
use crate::graveyard::Graveyard;
use crate::player::{Player, PlayerView};
use crate::special_cards::SpecialCardEffect;
use crate::turn_player::Turn;

verus! {

/// The phase of play.
#[derive(Clone, Copy, Debug, PartialEq, Eq, Structural)]
pub enum AppState {
    /// Outside a game.
    MainMenu,
    /// Dealing in progress; no player acts.
    Setup,
    /// Exactly one player is active.
    PlayerTurn,
    /// Scoring; waiting for a new round.
    RoundEnd,
}

/// Why an action was refused. A refused action changes nothing.
#[derive(Clone, Copy, Debug, PartialEq, Eq, Structural)]
pub enum Rejection {
    /// The action does not belong to the current phase.
    WrongPhase,
    /// The table has no deck.
    NoDeck,
    /// The table has no graveyard.
    NoGraveyard,
    /// Nobody is seated.
    NoPlayers,
    /// The table already holds what the action would create.
    AlreadySetUp,
    /// Some hand still holds cards.
    HandsNotEmpty,
    /// An effect is waiting for the player to pick a card.
    EffectPending,
    /// The current player has already drawn this turn.
    AlreadyDrewThisTurn,
    /// The deck has run out.
    DeckEmpty,
    /// The graveyard holds no card.
    GraveyardEmpty,
    /// The index names no card.
    NoSuchCard,
    /// The card is not the current player's drawn card.
    NotDrawnCard,
    /// The card is in another player's hand.
    NotYourTurn,
    /// The card is in no hand.
    CardNotInHand,
    /// The current player holds no drawn card to swap in.
    NoDrawnCard,
    /// An effect is already in progress.
    EffectAlreadyPending,
    /// No effect of the kind asked for is in progress.
    NoEffect,
    /// The current player holds no card drawn from the deck.
    NoEligibleCard,
    /// The drawn card carries no effect.
    NotSpecialCard,
    /// The card belongs to the wrong player for this pick.
    WrongTargetOwner,
    /// The current player still has a drawn card to resolve.
    DrawnCardUnresolved,
    /// The pick names no face-down card.
    NoSuchChoice,
}

/// The table.
pub struct Game {
    pub(crate) state: AppState,
    pub(crate) players: Vec<Player>,
    pub(crate) cards: Vec<Card>,
    pub(crate) deck: Option<Deck>,
    pub(crate) graveyard: Option<Graveyard>,
    pub(crate) turn: Option<Turn>,
    pub(crate) special_effect: SpecialCardEffect,
    pub(crate) double_click: DoubleClick,
}

/// What a table is, mathematically. Cards and players are named by their
/// index in `cards` and `players`.
#[verifier::ext_equal]
pub struct GameView {
    pub state: AppState,
    pub players: Seq<PlayerView>,
    pub cards: Seq<Card>,
    /// The draw pile, next card first, if the table has one.
    pub deck: Option<Seq<usize>>,
    /// The discard pile, top card last, if the table has one.
    pub graveyard: Option<Seq<usize>>,
    pub turn: Option<Turn>,
    pub effect: SpecialCardEffect,
    pub double_click: DoubleClick,
}

impl View for Game {
    type V = GameView;

    open(crate) spec fn view(&self) -> GameView {
        GameView {
            state: self.state,
            players: self.players@.map_values(|p: Player| p@),
            cards: self.cards@,
            deck: match self.deck {
                Some(d) => Some(d.cards_values@),
                None => None,
            },
            graveyard: match self.graveyard {
                Some(g) => Some(g.cards@),
                None => None,
            },
            turn: self.turn,
            effect: self.special_effect,
            double_click: self.double_click,
        }
    }
}

impl GameView {
    /// The table before anything has been set up.
    pub open spec fn initial() -> GameView {
        GameView {
            state: AppState::MainMenu,
            players: Seq::empty(),
            cards: Seq::empty(),
            deck: None,
            graveyard: None,
            turn: None,
            effect: SpecialCardEffect::empty(),
            double_click: DoubleClick {
                last_card: None,
                last_click_time: 0,
                time_limit: DOUBLE_CLICK_LIMIT,
            },
        }
    }

    /// Whether `c` names a card.
    pub open spec fn has_card(self, c: usize) -> bool {
        c < self.cards.len()
    }

    /// Whether `p` names a player.
    pub open spec fn has_player(self, p: usize) -> bool {
        p < self.players.len()
    }

    /// The hand of player `p`.
    pub open spec fn hand(self, p: usize) -> Seq<usize> {
        self.players[p as int].hand
    }

    /// The table with card `c` replaced.
    pub open spec fn with_card(self, c: usize, card: Card) -> GameView {
        GameView { cards: self.cards.update(c as int, card), ..self }
    }

    /// The table with the hand of player `p` replaced.
    pub open spec fn with_hand(self, p: usize, hand: Seq<usize>) -> GameView {
        GameView {
            players: self.players.update(
                p as int,
                PlayerView { hand, ..self.players[p as int] },
            ),
            ..self
        }
    }

    /// The table with no card selected.
    pub open spec fn deselected(self) -> GameView {
        GameView {
            cards: Seq::new(self.cards.len(), |c: int| Card { selected: None, ..self.cards[c] }),
            ..self
        }
    }

    /// Table `t` has the cards of this table: as many, each with its suit
    /// and value.
    pub open spec fn keeps_identities(self, t: GameView) -> bool {
        &&& t.cards.len() == self.cards.len()
        &&& forall|c: int|
            #![trigger t.cards[c]]
            0 <= c < self.cards.len() ==> t.cards[c].value == self.cards[c].value
                && t.cards[c].suit == self.cards[c].suit
    }

    /// Table `t` has the cards of this table, and none of them is eligible
    /// for its effect in `t` that was not eligible here.
    pub open spec fn plays_on(self, t: GameView) -> bool {
        &&& self.keeps_identities(t)
        &&& forall|c: int|
            #![trigger t.cards[c]]
            0 <= c < self.cards.len() ==> (t.cards[c].from_deck ==> self.cards[c].from_deck)
    }

    /// Table `t` has the cards of this table, and a card that is eligible
    /// for its effect in `t` was eligible here or lay in the deck.
    pub open spec fn draws_on(self, t: GameView) -> bool {
        &&& self.keeps_identities(t)
        &&& forall|c: int|
            #![trigger t.cards[c]]
            0 <= c < self.cards.len() ==> (t.cards[c].from_deck ==> self.cards[c].from_deck
                || self.cards[c].position is Deck)
    }

    /// `list` holds no card twice, and every card in it lies in `zone`.
    pub open spec fn lists(self, list: Seq<usize>, zone: CardPosition) -> bool {
        &&& list.no_duplicates()
        &&& forall|i: int|
            #![trigger list[i]]
            0 <= i < list.len() ==> self.has_card(list[i]) && self.cards[list[i] as int].position
                == zone
    }

    /// The zone tag of card `c` agrees with the containers, and its owner,
    /// face and eligibility agree with its zone.
    pub open spec fn card_wf(self, c: int) -> bool {
        let card = self.cards[c];
        match card.position {
            CardPosition::Deck => {
                &&& self.deck is Some
                &&& self.deck->0.contains(c as usize)
                &&& card.owner_id is None
                &&& !card.face_up
                &&& !card.from_deck
            },
            CardPosition::Hand(p) => {
                &&& self.has_player(p)
                &&& self.hand(p).contains(c as usize)
                &&& card.owner_id == Some(p)
                &&& !card.from_deck
            },
            CardPosition::Graveyard => {
                &&& self.graveyard is Some
                &&& self.graveyard->0.contains(c as usize)
                &&& card.owner_id is None
                &&& card.face_up
                &&& !card.from_deck
            },
            CardPosition::DrawnCard(p) => {
                &&& self.turn == Some(Turn { current_player: p, has_drawn_card: true })
                &&& self.state == AppState::PlayerTurn || self.state == AppState::RoundEnd
                &&& card.owner_id == Some(p)
                &&& card.face_up
            },
        }
    }

    /// The invariant of the table: every card lies in exactly the zone its
    /// tag names, no container holds a card twice, at most one card is drawn
    /// and at most one is selected, and a turn is in progress from the first
    /// turn of a round until the table is cleared.
    pub open spec fn wf(self) -> bool {
        &&& self.cards.len() <= usize::MAX
        &&& self.players.len() <= usize::MAX
        &&& forall|c: int| #![trigger self.cards[c]] 0 <= c < self.cards.len() ==> self.card_wf(c)
        &&& forall|p: int|
            #![trigger self.players[p]]
            0 <= p < self.players.len() ==> self.players[p].hand.len() <= HAND_SIZE && self.lists(
                self.players[p].hand,
                CardPosition::Hand(p as usize),
            )
        &&& self.deck matches Some(d) ==> self.lists(d, CardPosition::Deck)
        &&& self.graveyard matches Some(g) ==> self.lists(g, CardPosition::Graveyard)
        &&& self.turn matches Some(t) ==> self.has_player(t.current_player)
        &&& self.state == AppState::PlayerTurn || self.state == AppState::RoundEnd
            ==> self.turn is Some
        &&& forall|c: int, d: int|
            #![trigger self.cards[c], self.cards[d]]
            0 <= c < self.cards.len() && 0 <= d < self.cards.len()
                && self.cards[c].position is DrawnCard && self.cards[d].position is DrawnCard
                ==> c == d
        &&& forall|c: int, d: int|
            #![trigger self.cards[c], self.cards[d]]
            0 <= c < self.cards.len() && 0 <= d < self.cards.len() && self.cards[c].selected is Some
                && self.cards[d].selected is Some ==> c == d
    }
}

impl Game {
    /// A table in the main menu, with nobody seated and no cards.
    pub fn new() -> (game: Game)
        ensures
            game@ == GameView::initial(),
            game@.wf(),
    {
        let game = Game {
            state: AppState::MainMenu,
            players: Vec::new(),
            cards: Vec::new(),
            deck: None,
            graveyard: None,
            turn: None,
            special_effect: SpecialCardEffect::default(),
            double_click: DoubleClick {
                last_card: None,
                last_click_time: 0,
                time_limit: DOUBLE_CLICK_LIMIT,
            },
        };
        assert(game@ =~~= GameView::initial());
        game
    }
}

impl Game {
    /// The phase of play.
    pub fn state(&self) -> (state: AppState)
        ensures
            state == self@.state,
    {
        self.state
    }

    /// The cards on the table, by card index.
    pub fn cards(&self) -> (cards: &Vec<Card>)
        ensures
            cards@ == self@.cards,
    {
        &self.cards
    }

    /// Card `c`, if there is one.
    pub fn card(&self, c: usize) -> (card: Option<Card>)
        ensures
            card == if self@.has_card(c) {
                Some(self@.cards[c as int])
            } else {
                None
            },
    {
        if c < self.cards.len() {
            Some(self.cards[c])
        } else {
            None
        }
    }

    /// The number of seated players.
    pub fn player_count(&self) -> (n: usize)
        ensures
            n == self@.players.len(),
    {
        self.players.len()
    }

    /// Player `p`, if there is one.
    pub fn player(&self, p: usize) -> (player: Option<&Player>)
        ensures
            match player {
                Some(found) => self@.has_player(p) && found@ == self@.players[p as int],
                None => !self@.has_player(p),
            },
    {
        if p < self.players.len() {
            Some(&self.players[p])
        } else {
            None
        }
    }

    /// The draw pile, next card first, if the table has one.
    pub fn deck(&self) -> (deck: Option<&Deck>)
        ensures
            match deck {
                Some(found) => self@.deck == Some(found.cards_values@),
                None => self@.deck is None,
            },
    {
        self.deck.as_ref()
    }

    /// The card that heads the deck, if there is one.
    pub fn deck_head(&self) -> (r: Option<usize>)
        ensures
            r == match self@.deck {
                Some(d) => if d.len() > 0 {
                    Some(d.first())
                } else {
                    None
                },
                None => None,
            },
    {
        match &self.deck {
            Some(deck) => if deck.cards_values.len() > 0 {
                Some(deck.cards_values[0])
            } else {
                None
            },
            None => None,
        }
    }

    /// The number of cards left in the deck; zero where there is no deck.
    pub fn deck_len(&self) -> (n: usize)
        ensures
            n == match self@.deck {
                Some(d) => d.len(),
                None => 0,
            },
    {
        match &self.deck {
            Some(deck) => deck.cards_values.len(),
            None => 0,
        }
    }

    /// The discard pile, top card last, if the table has one.
    pub fn graveyard(&self) -> (graveyard: Option<&Graveyard>)
        ensures
            match graveyard {
                Some(found) => self@.graveyard == Some(found.cards@),
                None => self@.graveyard is None,
            },
    {
        self.graveyard.as_ref()
    }

    /// The turn in progress, if any.
    pub fn turn(&self) -> (turn: Option<Turn>)
        ensures
            turn == self@.turn,
    {
        self.turn
    }

    /// The effect in progress and the picks made for it so far.
    pub fn special_effect(&self) -> (effect: SpecialCardEffect)
        ensures
            effect == self@.effect,
    {
        self.special_effect
    }

    /// The memory of the last single click.
    pub fn double_click(&self) -> (memory: DoubleClick)
        ensures
            memory == self@.double_click,
    {
        self.double_click
    }
}

} // verus!
