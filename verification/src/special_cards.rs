//! The effects of the power cards.

use vstd::prelude::*;
use crate::gamestate::{AppState, Game, GameView, Rejection};
use crate::resolve::lemma_drawn_card;

verus! {

/// The three power effects.
#[derive(Clone, Copy, Debug, PartialEq, Eq, Structural)]
pub enum SpecialEffect {
    /// Value 11: turn a rival's hand face down and rearrange it.
    Shuffle,
    /// Value 9: turn one of the player's own face-down cards face up.
    Reveal,
    /// Value 7: exchange a rival's hand card with one of the player's own.
    Swap,
}

/// The effect in progress, if any, and the targets collected for it so far.
#[derive(Clone, Copy, Debug, PartialEq, Eq)]
pub struct SpecialCardEffect {
    /// The drawn card that triggered the effect.
    pub card_entity: Option<usize>,
    pub effect_type: Option<SpecialEffect>,
    pub awaiting_target: bool,
    pub target_player: Option<usize>,
    pub target_card: Option<usize>,
    pub awaiting_own_card: bool,
    pub own_card: Option<usize>,
}

impl SpecialCardEffect {
    /// The state in which no effect is in progress.
    pub open spec fn empty() -> SpecialCardEffect {
        SpecialCardEffect {
            card_entity: None,
            effect_type: None,
            awaiting_target: false,
            target_player: None,
            target_card: None,
            awaiting_own_card: false,
            own_card: None,
        }
    }

    /// Whether the effect is waiting for the player to pick a card.
    pub open spec fn awaiting(self) -> bool {
        self.awaiting_target || self.awaiting_own_card
    }

    /// Whether the effect is waiting for the player to pick a card.
    pub fn is_awaiting(&self) -> (r: bool)
        ensures
            r == self.awaiting(),
    {
        self.awaiting_target || self.awaiting_own_card
    }

    /// Whether an effect is in progress.
    pub open spec fn pending(self) -> bool {
        self.effect_type is Some || self.awaiting()
    }

    /// Whether an effect is in progress.
    pub fn is_pending(&self) -> (r: bool)
        ensures
            r == self.pending(),
    {
        self.effect_type.is_some() || self.awaiting_target || self.awaiting_own_card
    }

    /// The effect as it stands right after a card of kind `kind` triggered
    /// it: Shuffle and Swap wait for a rival's card, Swap also for one of
    /// the player's own.
    pub open spec fn triggered(card: usize, kind: SpecialEffect) -> SpecialCardEffect {
        SpecialCardEffect {
            card_entity: Some(card),
            effect_type: Some(kind),
            awaiting_target: kind != SpecialEffect::Reveal,
            target_player: None,
            target_card: None,
            awaiting_own_card: kind == SpecialEffect::Swap,
            own_card: None,
        }
    }
}

impl Default for SpecialCardEffect {
    fn default() -> (effect: SpecialCardEffect)
        ensures
            effect == SpecialCardEffect::empty(),
    {
        SpecialCardEffect {
            card_entity: None,
            effect_type: None,
            awaiting_target: false,
            target_player: None,
            target_card: None,
            awaiting_own_card: false,
            own_card: None,
        }
    }
}

/// The effect that a card of the given value carries, if it is a power card.
pub open spec fn effect_of_value(value: u8) -> Option<SpecialEffect> {
    if value == 11 {
        Some(SpecialEffect::Shuffle)
    } else if value == 9 {
        Some(SpecialEffect::Reveal)
    } else if value == 7 {
        Some(SpecialEffect::Swap)
    } else {
        None
    }
}

/// The effect that a card of the given value carries, if it is a power card.
pub fn special_effect_of(value: u8) -> (r: Option<SpecialEffect>)
    ensures
        r == effect_of_value(value),
{
    if value == 11 {
        Some(SpecialEffect::Shuffle)
    } else if value == 9 {
        Some(SpecialEffect::Reveal)
    } else if value == 7 {
        Some(SpecialEffect::Swap)
    } else {
        None
    }
}

/// The effect that the activate signal triggers, or why it triggers none.
/// Only a card drawn from the deck, still unresolved, carries an effect.
pub open spec fn activation_result(s: GameView) -> Result<SpecialEffect, Rejection> {
    if s.state != AppState::PlayerTurn {
        Err(Rejection::WrongPhase)
    } else if s.effect.pending() {
        Err(Rejection::EffectAlreadyPending)
    } else {
        match s.drawn_card(s.current_player()) {
            None => Err(Rejection::NoEligibleCard),
            Some(c) => if !s.cards[c as int].from_deck {
                Err(Rejection::NoEligibleCard)
            } else {
                match effect_of_value(s.cards[c as int].value) {
                    None => Err(Rejection::NotSpecialCard),
                    Some(kind) => Ok(kind),
                }
            },
        }
    }
}

/// The table after the activate signal.
pub open spec fn after_activation(s: GameView) -> GameView {
    match activation_result(s) {
        Ok(kind) => GameView {
            effect: SpecialCardEffect::triggered(s.drawn_card(s.current_player())->0, kind),
            ..s
        },
        Err(_) => s,
    }
}

/// Triggering an effect keeps the table well formed.
pub proof fn lemma_activation_wf(s: GameView)
    requires
        s.wf(),
    ensures
        after_activation(s).wf(),
        s.plays_on(after_activation(s)),
{
    lemma_effect_change_wf(s, after_activation(s).effect);
    assert(after_activation(s) == (GameView { effect: after_activation(s).effect, ..s }));
}

/// Triggers the effect of the current player's drawn card.
///
/// The card must have come from the deck this turn and be worth 7 (Swap),
/// 9 (Reveal) or 11 (Shuffle), and no effect may be in progress. Otherwise
/// the signal is refused and nothing changes.
pub fn detect_special_card(game: &mut Game) -> (r: Result<SpecialEffect, Rejection>)
    requires
        old(game)@.wf(),
    ensures
        r == activation_result(old(game)@),
        final(game)@ == after_activation(old(game)@),
        r is Err ==> final(game)@ == old(game)@,
        final(game)@.wf(),
{
    proof {
        lemma_activation_wf(game@);
    }
    if game.state != AppState::PlayerTurn {
        return Err(Rejection::WrongPhase);
    }
    let turn = game.turn.unwrap();
    if game.special_effect.is_pending() {
        return Err(Rejection::EffectAlreadyPending);
    }
    let c = match game.find_drawn_card(turn.current_player) {
        Some(c) => c,
        None => {
            return Err(Rejection::NoEligibleCard);
        },
    };
    proof {
        lemma_drawn_card(game@, turn.current_player);
    }
    if !game.cards[c].from_deck {
        return Err(Rejection::NoEligibleCard);
    }
    let kind = match special_effect_of(game.cards[c].value) {
        Some(kind) => kind,
        None => {
            return Err(Rejection::NotSpecialCard);
        },
    };
    game.special_effect = SpecialCardEffect {
        card_entity: Some(c),
        effect_type: Some(kind),
        awaiting_target: kind != SpecialEffect::Reveal,
        target_player: None,
        target_card: None,
        awaiting_own_card: kind == SpecialEffect::Swap,
        own_card: None,
    };
    assert(game@ =~~= after_activation(old(game)@));
    Ok(kind)
}

/// Well-formedness does not depend on the effect in progress.
pub proof fn lemma_effect_change_wf(s: GameView, effect: SpecialCardEffect)
    requires
        s.wf(),
    ensures
        (GameView { effect, ..s }).wf(),
{
    let t = GameView { effect, ..s };
    assert forall|x: int| 0 <= x < t.cards.len() implies t.card_wf(x) by {
        assert(s.card_wf(x));
    }
}

/// What the presentation layer should tell the player about the effect in
/// progress.
#[derive(Clone, Copy, Debug, PartialEq, Eq, Structural)]
pub enum EffectPrompt {
    /// No effect is in progress.
    Nothing,
    /// A Reveal is about to resolve.
    RevealActive,
    /// A Shuffle waits for a rival's card.
    ShuffleAwaitingTarget,
    /// A Shuffle has its target and is about to resolve.
    ShuffleReady,
    /// A Swap waits for a rival's card.
    SwapAwaitingTarget,
    /// A Swap waits for one of the player's own cards.
    SwapAwaitingOwnCard,
    /// A Swap has both cards and is about to resolve.
    SwapReady,
}

/// The prompt that goes with an effect.
pub open spec fn prompt_of(effect: SpecialCardEffect) -> EffectPrompt {
    match effect.effect_type {
        None => EffectPrompt::Nothing,
        Some(SpecialEffect::Reveal) => EffectPrompt::RevealActive,
        Some(SpecialEffect::Shuffle) => if effect.awaiting_target {
            EffectPrompt::ShuffleAwaitingTarget
        } else {
            EffectPrompt::ShuffleReady
        },
        Some(SpecialEffect::Swap) => if effect.awaiting_target {
            EffectPrompt::SwapAwaitingTarget
        } else if effect.awaiting_own_card {
            EffectPrompt::SwapAwaitingOwnCard
        } else {
            EffectPrompt::SwapReady
        },
    }
}

/// Reports what the effect in progress is waiting for.
pub fn handle_special_effects(game: &Game) -> (prompt: EffectPrompt)
    ensures
        prompt == prompt_of(game@.effect),
{
    match game.special_effect.effect_type {
        None => EffectPrompt::Nothing,
        Some(SpecialEffect::Reveal) => EffectPrompt::RevealActive,
        Some(SpecialEffect::Shuffle) => if game.special_effect.awaiting_target {
            EffectPrompt::ShuffleAwaitingTarget
        } else {
            EffectPrompt::ShuffleReady
        },
        Some(SpecialEffect::Swap) => if game.special_effect.awaiting_target {
            EffectPrompt::SwapAwaitingTarget
        } else if game.special_effect.awaiting_own_card {
            EffectPrompt::SwapAwaitingOwnCard
        } else {
            EffectPrompt::SwapReady
        },
    }
}

} // verus!
