//! Rules of a two-player draw-and-swap card game: zones, turns, the three
//! power cards and round scoring, with every transition proved to keep each
//! card in exactly one zone.

pub mod card;
pub mod click;
pub mod deck;
pub mod draw;
pub mod effect;
pub mod gamestate;
pub mod graveyard;
pub mod hand;
pub mod laws;
pub mod menu;
pub mod player;
pub mod presentation;
mod random;
pub mod resolve;
pub mod round_end;
pub mod special_cards;
pub mod turn_player;
pub mod zones;
