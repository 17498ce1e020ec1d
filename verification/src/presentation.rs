//! What the presentation layer is to show, decided from the state of the
//! table: which cards to raise or dim, and which changes to animate.

use vstd::prelude::*;
use crate::card::{Card, CardPosition, PreviousCardPosition, PreviousFaceUp};
use crate::gamestate::{Game, GameView};
use crate::resolve::position_in;
use crate::turn_player::Turn;

verus! {

/// Whether a card is shown dimmed: it lies in the hand of a player who is
/// not up.
pub open spec fn dimmed(card: Card, turn: Turn) -> bool {
    card.position matches CardPosition::Hand(holder) && holder != turn.current_player
}

/// Decides whether a card is shown dimmed.
pub fn update_turn_indicator(card: &Card, turn: &Turn) -> (r: bool)
    ensures
        r == dimmed(*card, *turn),
{
    match card.position {
        CardPosition::Hand(holder) => holder != turn.current_player,
        _ => false,
    }
}

/// Whether a card is shown raised: it is selected and lies in the hand of
/// the player who is up.
pub open spec fn raised(card: Card, turn: Turn) -> bool {
    card.selected is Some && card.position == CardPosition::Hand(turn.current_player)
}

/// Decides whether a card is shown raised.
pub fn card_visual(card: &Card, turn: &Turn) -> (r: bool)
    ensures
        r == raised(*card, *turn),
{
    match card.position {
        CardPosition::Hand(holder) => holder == turn.current_player && card.selected.is_some(),
        _ => false,
    }
}

/// What the look at a card for a flip found: whether to animate one, and
/// what to remember of the card for the next look.
#[derive(Clone, Copy, Debug, PartialEq, Eq)]
pub struct FlipDetection {
    pub animate: bool,
    pub previous_position: Option<PreviousCardPosition>,
    pub previous_face_up: Option<PreviousFaceUp>,
}

/// What a look at `card` for a flip finds. A card in mid-animation is left
/// alone. A card seen for the first time is only remembered. Otherwise a
/// flip is animated where a hand card has turned face up since the last
/// look, and whatever changed is remembered.
pub open spec fn flip_detection(
    card: Card,
    previous_position: Option<PreviousCardPosition>,
    previous_face_up: Option<PreviousFaceUp>,
    animating: bool,
) -> FlipDetection {
    if animating {
        FlipDetection { animate: false, previous_position, previous_face_up }
    } else if previous_position is None {
        FlipDetection {
            animate: false,
            previous_position: Some(PreviousCardPosition(card.position)),
            previous_face_up: Some(PreviousFaceUp(card.face_up)),
        }
    } else {
        match previous_face_up {
            None => FlipDetection {
                animate: false,
                previous_position,
                previous_face_up: Some(PreviousFaceUp(card.face_up)),
            },
            Some(PreviousFaceUp(was_up)) => FlipDetection {
                animate: !was_up && card.face_up && card.position is Hand,
                previous_position: Some(PreviousCardPosition(card.position)),
                previous_face_up: Some(PreviousFaceUp(card.face_up)),
            },
        }
    }
}

/// Looks at a card for a flip to animate.
pub fn detect_flip(
    card: &Card,
    previous_position: Option<PreviousCardPosition>,
    previous_face_up: Option<PreviousFaceUp>,
    animating: bool,
) -> (r: FlipDetection)
    ensures
        r == flip_detection(*card, previous_position, previous_face_up, animating),
{
    if animating {
        return FlipDetection { animate: false, previous_position, previous_face_up };
    }
    let now_position = Some(PreviousCardPosition(card.position));
    let now_face = Some(PreviousFaceUp(card.face_up));
    if previous_position.is_none() {
        return FlipDetection {
            animate: false,
            previous_position: now_position,
            previous_face_up: now_face,
        };
    }
    match previous_face_up {
        None => FlipDetection { animate: false, previous_position, previous_face_up: now_face },
        Some(PreviousFaceUp(was_up)) => {
            let in_hand = match card.position {
                CardPosition::Hand(_) => true,
                _ => false,
            };
            FlipDetection {
                animate: !was_up && card.face_up && in_hand,
                previous_position: now_position,
                previous_face_up: now_face,
            }
        },
    }
}

/// Whether the move of a card from zone `from` to zone `to` is animated:
/// a draw from the deck or from the graveyard, a discard, and both halves
/// of a swap with the hand.
pub open spec fn move_is_animated(from: CardPosition, to: CardPosition) -> bool {
    match (from, to) {
        (CardPosition::Deck, CardPosition::DrawnCard(_)) => true,
        (CardPosition::DrawnCard(_), CardPosition::Graveyard) => true,
        (CardPosition::DrawnCard(_), CardPosition::Hand(_)) => true,
        (CardPosition::Hand(_), CardPosition::Graveyard) => true,
        (CardPosition::Graveyard, CardPosition::DrawnCard(_)) => true,
        _ => false,
    }
}

/// Decides whether the move of a card between two zones is animated.
pub fn should_animate_movement(from: CardPosition, to: CardPosition) -> (r: bool)
    ensures
        r == move_is_animated(from, to),
{
    match (from, to) {
        (CardPosition::Deck, CardPosition::DrawnCard(_)) => true,
        (CardPosition::DrawnCard(_), CardPosition::Graveyard) => true,
        (CardPosition::DrawnCard(_), CardPosition::Hand(_)) => true,
        (CardPosition::Hand(_), CardPosition::Graveyard) => true,
        (CardPosition::Graveyard, CardPosition::DrawnCard(_)) => true,
        _ => false,
    }
}

/// Where an animated move ends.
#[derive(Clone, Copy, Debug, PartialEq, Eq)]
pub enum MoveTarget {
    /// The place where a drawn card is shown.
    DrawnSpot,
    /// The graveyard, at the given height in the pile.
    GraveyardStack(usize),
    /// The graveyard, where the table has no pile to stack on.
    GraveyardBase,
    /// Where the card already is.
    Stay,
}

/// Where the move of card `c` ends, going by the zone it is in now.
pub open spec fn move_target(s: GameView, c: usize) -> MoveTarget {
    match s.cards[c as int].position {
        CardPosition::DrawnCard(_) => MoveTarget::DrawnSpot,
        CardPosition::Graveyard => match s.graveyard {
            Some(pile) => MoveTarget::GraveyardStack(pile.index_of(c) as usize),
            None => MoveTarget::GraveyardBase,
        },
        _ => MoveTarget::Stay,
    }
}

/// What the look at a card for a move found: whether to animate one and
/// where to, and what to remember of the card for the next look.
#[derive(Clone, Copy, Debug, PartialEq, Eq)]
pub struct MovementDetection {
    pub animate: bool,
    pub target: MoveTarget,
    pub remember_position: bool,
    pub remember_place: bool,
}

/// What a look at card `c` for a move finds. A card in mid-animation is
/// left alone. A card seen for the first time is only remembered. Otherwise
/// a move is animated where the card changed zone in one of the animated
/// ways, and whatever changed is remembered.
pub open spec fn movement_detection(
    s: GameView,
    c: usize,
    previous_position: Option<PreviousCardPosition>,
    place_known: bool,
    place_changed: bool,
    animating: bool,
) -> MovementDetection {
    let idle = MovementDetection {
        animate: false,
        target: MoveTarget::Stay,
        remember_position: false,
        remember_place: false,
    };
    if animating {
        idle
    } else {
        match previous_position {
            None => MovementDetection {
                remember_position: true,
                remember_place: true,
                ..idle
            },
            Some(PreviousCardPosition(from)) => if !place_known {
                MovementDetection { remember_place: true, ..idle }
            } else {
                let to = s.cards[c as int].position;
                let animate = move_is_animated(from, to) && (from != to || place_changed);
                MovementDetection {
                    animate,
                    target: if animate {
                        move_target(s, c)
                    } else {
                        MoveTarget::Stay
                    },
                    remember_position: from != to,
                    remember_place: place_changed,
                }
            },
        }
    }
}

/// Looks at card `c` for a move to animate. `place_known` says
/// whether the place of the card on screen was remembered at the last
/// look, `place_changed` whether it differs now.
pub fn detect_movement(
    game: &Game,
    c: usize,
    previous_position: Option<PreviousCardPosition>,
    place_known: bool,
    place_changed: bool,
    animating: bool,
) -> (r: MovementDetection)
    requires
        game@.wf(),
        game@.has_card(c),
    ensures
        r == movement_detection(
            game@,
            c,
            previous_position,
            place_known,
            place_changed,
            animating,
        ),
{
    let idle = MovementDetection {
        animate: false,
        target: MoveTarget::Stay,
        remember_position: false,
        remember_place: false,
    };
    if animating {
        return idle;
    }
    let from = match previous_position {
        None => {
            return MovementDetection {
                animate: false,
                target: MoveTarget::Stay,
                remember_position: true,
                remember_place: true,
            };
        },
        Some(PreviousCardPosition(from)) => from,
    };
    if !place_known {
        return MovementDetection {
            animate: false,
            target: MoveTarget::Stay,
            remember_position: false,
            remember_place: true,
        };
    }
    let to = game.cards[c].position;
    let position_changed = from != to;
    let animate = should_animate_movement(from, to) && (position_changed || place_changed);
    let mut target = MoveTarget::Stay;
    if animate {
        target =
        match to {
            CardPosition::DrawnCard(_) => MoveTarget::DrawnSpot,
            CardPosition::Graveyard => match &game.graveyard {
                Some(pile) => {
                    proof {
                        assert(game@.card_wf(c as int));
                        assert(game@.lists(game@.graveyard->0, CardPosition::Graveyard));
                    }
                    MoveTarget::GraveyardStack(position_in(&pile.cards, c).unwrap())
                },
                None => MoveTarget::GraveyardBase,
            },
            _ => MoveTarget::Stay,
        };
    }
    MovementDetection {
        animate,
        target,
        remember_position: position_changed,
        remember_place: place_changed,
    }
}

} // verus!
