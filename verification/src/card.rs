//! Cards and the zones they occupy.

use vstd::prelude::*;

verus! {

/// The four suits of the deck. Suits are cosmetic: no rule depends on them.
#[derive(Clone, Copy, Debug, PartialEq, Eq, Structural)]
pub enum Suit {
    Coarse,
    Cup,
    Gold,
    Sword,
}

/// The zone a card occupies. A player is named by its seat index.
#[derive(Clone, Copy, Debug, PartialEq, Eq, Structural)]
pub enum CardPosition {
    /// Face-down and unowned, waiting to be drawn.
    Deck,
    /// In the hand of the given player.
    Hand(usize),
    /// Face-up and unowned, on the discard pile.
    Graveyard,
    /// Drawn by the given player this turn and not yet resolved.
    DrawnCard(usize),
}

/// Marker carried by the one card that is currently selected.
#[derive(Clone, Copy, Debug, PartialEq, Eq, Structural)]
pub struct Selected;

/// One physical card. Cards are named by their index in the table's arena.
#[derive(Clone, Copy, Debug, PartialEq, Eq)]
pub struct Card {
    /// Rank, used for scoring and for the choice of a special effect.
    pub value: u8,
    /// Whether both players can see the card.
    pub face_up: bool,
    /// The player that holds the card, if any.
    pub owner_id: Option<usize>,
    /// The zone the card is in.
    pub position: CardPosition,
    pub suit: Suit,
    /// True only while the card is the just-drawn card taken from the deck.
    pub from_deck: bool,
    /// Present on the selected card only.
    pub selected: Option<Selected>,
}

/// The zone a card was in when the presentation layer last looked at it.
#[derive(Clone, Copy, Debug, PartialEq, Eq, Structural)]
pub struct PreviousCardPosition(pub CardPosition);

/// The face a card showed when the presentation layer last looked at it.
#[derive(Clone, Copy, Debug, PartialEq, Eq, Structural)]
pub struct PreviousFaceUp(pub bool);

/// Memory of the last single click, used to recognise a double click.
/// Times are in milliseconds.
#[derive(Clone, Copy, Debug, PartialEq, Eq)]
pub struct DoubleClick {
    pub last_card: Option<usize>,
    pub last_click_time: u64,
    pub time_limit: u64,
}

/// The double-click window of a fresh table, in milliseconds.
pub const DOUBLE_CLICK_LIMIT: u64 = 400;

/// Number of distinct ranks per suit.
pub const VALUES_PER_SUIT: u8 = 12;

/// Number of cards in a full deck.
pub const DECK_SIZE: usize = 48;

/// Number of cards dealt to each player.
pub const HAND_SIZE: usize = 4;

impl Card {
    /// A card as it lies in the deck: face down, unowned, not selected.
    pub open spec fn fresh(suit: Suit, value: u8) -> Card {
        Card {
            value,
            face_up: false,
            owner_id: None,
            position: CardPosition::Deck,
            suit,
            from_deck: false,
            selected: None,
        }
    }

    /// Builds a card as it lies in the deck.
    pub fn new(suit: Suit, value: u8) -> (card: Card)
        ensures
            card == Card::fresh(suit, value),
    {
        Card {
            value,
            face_up: false,
            owner_id: None,
            position: CardPosition::Deck,
            suit,
            from_deck: false,
            selected: None,
        }
    }
}

} // verus!
