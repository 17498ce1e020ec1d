//! What holds of every well-formed table, and of the rules taken together.

use vstd::prelude::*;
use crate::card::{CardPosition, Suit, DECK_SIZE};
use crate::click::{
    after_card_click, after_selection, lemma_card_click_wf, lemma_selection_wf, Click,
};
use crate::deck::{after_spawn, full_deck, lemma_spawn_wf, spawn_result};
use crate::draw::{
    after_deck_click, after_graveyard_click, deck_click_result, graveyard_click_result,
    lemma_deck_click_wf, lemma_graveyard_click_wf,
};
use crate::effect::{
    after_reveal, after_shuffle, after_swap_effect, after_target_click, lemma_reveal_wf,
    lemma_shuffle_wf, lemma_swap_effect_wf, lemma_target_click_wf,
};
use crate::gamestate::{AppState, GameView, Rejection};
use crate::graveyard::{after_graveyard, lemma_spawn_graveyard_wf};
use crate::hand::{after_deal, lemma_deal_wf};
use crate::menu::{after_leave_game, after_start_game, lemma_leave_game_wf, lemma_start_game_wf};
use crate::player::{after_seating, lemma_seating_wf};
use crate::resolve::{
    after_discard, after_swap, discarded, lemma_deselected_wf, lemma_discard_wf, lemma_drawn_card,
    lemma_replace_entry, lemma_swap_wf, swap_result, taken_in,
};
use crate::round_end::{
    after_new_round, after_reveal_all, lemma_new_round_wf, lemma_reveal_all_wf,
};
use crate::special_cards::{
    activation_result, after_activation, effect_of_value, lemma_activation_wf,
};
use crate::turn_player::{
    after_end_round, after_next_turn, after_start_turn, lemma_end_round_wf, lemma_next_turn_wf,
    lemma_start_turn_wf,
};

verus! {

/// How often card `c` stands in `list`.
pub open spec fn count_in(list: Seq<usize>, c: usize) -> nat {
    list.to_multiset().count(c)
}

impl GameView {
    /// How often card `c` stands in the hands of the first `seats` players.
    pub open spec fn count_in_hands(self, seats: nat, c: usize) -> nat
        decreases seats,
    {
        if seats == 0 {
            0
        } else {
            self.count_in_hands((seats - 1) as nat, c) + count_in(self.players[seats - 1].hand, c)
        }
    }

    /// Whether card `c` fills the drawn-card slot of the current player.
    pub open spec fn in_drawn_slot(self, c: usize) -> bool {
        self.turn is Some && self.is_drawn_by(c as int, self.current_player())
    }

    /// How often card `c` appears over all zones: in the deck, in the hands,
    /// in the drawn-card slot and on the graveyard.
    pub open spec fn occurrences(self, c: usize) -> nat {
        (match self.deck {
            Some(d) => count_in(d, c),
            None => 0,
        }) + self.count_in_hands(self.players.len(), c) + (if self.in_drawn_slot(c) {
            1nat
        } else {
            0nat
        }) + (match self.graveyard {
            Some(g) => count_in(g, c),
            None => 0,
        })
    }

    /// How many cards the first `seats` players hold in hand.
    pub open spec fn cards_in_hands(self, seats: nat) -> nat
        decreases seats,
    {
        if seats == 0 {
            0
        } else {
            self.cards_in_hands((seats - 1) as nat) + self.players[seats - 1].hand.len()
        }
    }

    /// How many of the first `seats` players hold a drawn card: each holds
    /// one or none.
    pub open spec fn cards_drawn(self, seats: nat) -> nat
        decreases seats,
    {
        if seats == 0 {
            0
        } else {
            self.cards_drawn((seats - 1) as nat) + (if self.drawn_card((seats - 1) as usize)
                is Some {
                1nat
            } else {
                0nat
            })
        }
    }

    /// How many cards lie in the zones, all told.
    pub open spec fn cards_in_zones(self) -> nat {
        (match self.deck {
            Some(d) => d.len(),
            None => 0,
        }) + self.cards_in_hands(self.players.len()) + self.cards_drawn(self.players.len()) + (
        match self.graveyard {
            Some(g) => g.len(),
            None => 0,
        })
    }
}

/// A duplicate-free list holds a card once or not at all.
proof fn lemma_count_in(list: Seq<usize>, c: usize)
    requires
        list.no_duplicates(),
    ensures
        count_in(list, c) == if list.contains(c) {
            1nat
        } else {
            0nat
        },
{
    broadcast use vstd::seq_lib::group_to_multiset_ensures;

    list.lemma_multiset_has_no_duplicates();
    assert(list.contains(c) <==> list.to_multiset().count(c) > 0);
}

/// The hands of the first `seats` players hold card `c` once if it lies in
/// the hand of one of them, and not at all otherwise.
proof fn lemma_count_in_hands(s: GameView, seats: nat, c: usize)
    requires
        s.wf(),
        s.has_card(c),
        seats <= s.players.len(),
    ensures
        s.count_in_hands(seats, c) == if s.cards[c as int].position matches CardPosition::Hand(p)
            && p < seats {
            1nat
        } else {
            0nat
        },
    decreases seats,
{
    if seats > 0 {
        let p = (seats - 1) as usize;
        lemma_count_in_hands(s, (seats - 1) as nat, c);
        let hand = s.players[seats - 1].hand;
        assert(s.lists(hand, CardPosition::Hand(p)));
        lemma_count_in(hand, c);
        assert(s.card_wf(c as int));
        if hand.contains(c) {
            let i = choose|i: int| 0 <= i < hand.len() && hand[i] == c;
            assert(s.cards[hand[i] as int].position == CardPosition::Hand(p));
        }
    }
}

/// Zone exclusivity: in a well-formed table every card appears exactly once
/// over all zones taken together. It lies in the deck, or in one hand, or in
/// the current player's drawn-card slot, or on the graveyard, and there it
/// stands once.
pub proof fn law_zone_exclusivity(s: GameView, c: usize)
    requires
        s.wf(),
        s.has_card(c),
    ensures
        s.occurrences(c) == 1,
{
    assert(s.card_wf(c as int));
    lemma_count_in_hands(s, s.players.len(), c);
    if let Some(d) = s.deck {
        assert(s.lists(d, CardPosition::Deck));
        lemma_count_in(d, c);
        if d.contains(c) {
            let i = choose|i: int| 0 <= i < d.len() && d[i] == c;
            assert(s.cards[d[i] as int].position == CardPosition::Deck);
        }
    }
    if let Some(g) = s.graveyard {
        assert(s.lists(g, CardPosition::Graveyard));
        lemma_count_in(g, c);
        if g.contains(c) {
            let i = choose|i: int| 0 <= i < g.len() && g[i] == c;
            assert(s.cards[g[i] as int].position == CardPosition::Graveyard);
        }
    }
}

/// The indices below `n`.
spec fn card_ids(n: nat) -> Set<usize> {
    Set::new(|c: usize| c < n)
}

/// There are `n` indices below `n`.
proof fn lemma_card_ids(n: nat)
    requires
        n <= usize::MAX,
    ensures
        card_ids(n).finite(),
        card_ids(n).len() == n,
    decreases n,
{
    if n == 0 {
        assert(card_ids(n) =~= Set::empty());
    } else {
        let below = (n - 1) as nat;
        lemma_card_ids(below);
        assert(card_ids(n) =~= card_ids(below).insert(below as usize));
    }
}

/// The cards of table `s` that lie in `zone`.
spec fn cards_tagged(s: GameView, zone: CardPosition) -> Set<usize> {
    Set::new(|c: usize| s.has_card(c) && s.cards[c as int].position == zone)
}

/// The cards of table `s` in the hands of the first `seats` players.
spec fn cards_held(s: GameView, seats: nat) -> Set<usize> {
    Set::new(
        |c: usize|
            s.has_card(c) && (s.cards[c as int].position matches CardPosition::Hand(p) && p
                < seats),
    )
}

/// The cards of table `s` that the first `seats` players have drawn.
spec fn cards_taken(s: GameView, seats: nat) -> Set<usize> {
    Set::new(
        |c: usize|
            s.has_card(c) && (s.cards[c as int].position matches CardPosition::DrawnCard(p) && p
                < seats),
    )
}

/// A list that holds exactly the cards of a zone, each once, is as long as
/// the zone has cards.
proof fn lemma_list_counts_zone(s: GameView, list: Seq<usize>, zone: CardPosition)
    requires
        s.lists(list, zone),
        forall|c: usize| s.has_card(c) && s.cards[c as int].position == zone ==> list.contains(c),
    ensures
        list.to_set() == cards_tagged(s, zone),
        list.to_set().finite(),
        list.to_set().len() == list.len(),
{
    broadcast use vstd::seq_lib::seq_to_set_is_finite;

    list.unique_seq_to_set();
    assert forall|c: usize| list.to_set().contains(c) implies cards_tagged(s, zone).contains(c) by {
        let i = choose|i: int| 0 <= i < list.len() && list[i] == c;
        assert(s.cards[list[i] as int].position == zone);
    }
    assert(list.to_set() =~= cards_tagged(s, zone));
}

/// The hands of the first `seats` players hold as many cards as lie in
/// their hands.
proof fn lemma_cards_held(s: GameView, seats: nat)
    requires
        s.wf(),
        seats <= s.players.len(),
    ensures
        cards_held(s, seats).finite(),
        cards_held(s, seats).len() == s.cards_in_hands(seats),
    decreases seats,
{
    if seats == 0 {
        assert(cards_held(s, seats) =~= Set::empty());
    } else {
        let p = (seats - 1) as usize;
        let hand = s.players[seats - 1].hand;
        lemma_cards_held(s, (seats - 1) as nat);
        assert(s.lists(hand, CardPosition::Hand(p)));
        assert forall|c: usize|
            s.has_card(c) && s.cards[c as int].position == CardPosition::Hand(
                p,
            ) implies hand.contains(c) by {
            assert(s.card_wf(c as int));
        }
        lemma_list_counts_zone(s, hand, CardPosition::Hand(p));
        let earlier = cards_held(s, (seats - 1) as nat);
        assert(earlier.disjoint(hand.to_set()));
        assert(cards_held(s, seats) =~= earlier + hand.to_set());
        vstd::set_lib::lemma_set_disjoint_lens(earlier, hand.to_set());
    }
}

/// As many cards are drawn as players among the first `seats` hold a drawn
/// card.
proof fn lemma_cards_taken(s: GameView, seats: nat)
    requires
        s.wf(),
        seats <= s.players.len(),
    ensures
        cards_taken(s, seats).finite(),
        cards_taken(s, seats).len() == s.cards_drawn(seats),
    decreases seats,
{
    if seats == 0 {
        assert(cards_taken(s, seats) =~= Set::empty());
    } else {
        let p = (seats - 1) as usize;
        lemma_cards_taken(s, (seats - 1) as nat);
        lemma_drawn_card(s, p);
        let earlier = cards_taken(s, (seats - 1) as nat);
        match s.drawn_card(p) {
            Some(c) => {
                assert(s.cards[c as int].position is DrawnCard);
                assert(!earlier.contains(c));
                assert forall|d: usize| cards_taken(s, seats).contains(d) implies d == c by {
                    assert(s.cards[d as int].position is DrawnCard);
                }
                assert(cards_taken(s, seats) =~= earlier.insert(c));
            },
            None => {
                assert forall|d: usize| cards_taken(s, seats).contains(d) implies earlier.contains(
                    d,
                ) by {
                    assert(!s.is_drawn_by(d as int, p));
                }
                assert(cards_taken(s, seats) =~= earlier);
            },
        }
    }
}

/// Conservation: in a well-formed table the deck, the hands, the drawn-card
/// slots and the graveyard together hold exactly as many cards as the table
/// has. From the making of the forty-eight cards of a round until the table
/// is cleared, that number is forty-eight.
pub proof fn law_conservation(s: GameView)
    requires
        s.wf(),
    ensures
        s.cards_in_zones() == s.cards.len(),
{
    let n = s.cards.len();
    let seats = s.players.len();
    let in_deck = cards_tagged(s, CardPosition::Deck);
    let in_graveyard = cards_tagged(s, CardPosition::Graveyard);
    let held = cards_held(s, seats);
    let taken = cards_taken(s, seats);
    lemma_card_ids(n);
    lemma_cards_held(s, seats);
    lemma_cards_taken(s, seats);
    match s.deck {
        Some(d) => {
            assert forall|c: usize|
                s.has_card(c) && s.cards[c as int].position == CardPosition::Deck implies d.contains(
                c,
            ) by {
                assert(s.card_wf(c as int));
            }
            lemma_list_counts_zone(s, d, CardPosition::Deck);
        },
        None => {
            assert forall|c: usize| !in_deck.contains(c) by {
                if s.has_card(c) {
                    assert(s.card_wf(c as int));
                }
            }
            assert(in_deck =~= Set::empty());
        },
    }
    match s.graveyard {
        Some(g) => {
            assert forall|c: usize|
                s.has_card(c) && s.cards[c as int].position
                    == CardPosition::Graveyard implies g.contains(c) by {
                assert(s.card_wf(c as int));
            }
            lemma_list_counts_zone(s, g, CardPosition::Graveyard);
        },
        None => {
            assert forall|c: usize| !in_graveyard.contains(c) by {
                if s.has_card(c) {
                    assert(s.card_wf(c as int));
                }
            }
            assert(in_graveyard =~= Set::empty());
        },
    }
    assert(in_deck.finite() && in_deck.len() == match s.deck {
        Some(d) => d.len(),
        None => 0,
    });
    assert(in_graveyard.finite() && in_graveyard.len() == match s.graveyard {
        Some(g) => g.len(),
        None => 0,
    });
    let piles = in_deck + in_graveyard;
    let moving = held + taken;
    vstd::set_lib::lemma_set_disjoint_lens(in_deck, in_graveyard);
    vstd::set_lib::lemma_set_disjoint_lens(held, taken);
    assert(in_deck.disjoint(in_graveyard));
    assert(held.disjoint(taken));
    assert(piles.finite() && moving.finite());
    assert(piles.disjoint(moving));
    vstd::set_lib::lemma_set_disjoint_lens(piles, moving);
    assert forall|c: usize| card_ids(n).contains(c) implies (piles + moving).contains(c) by {
        assert(s.card_wf(c as int));
        match s.cards[c as int].position {
            CardPosition::Deck => {
                assert(in_deck.contains(c));
            },
            CardPosition::Graveyard => {
                assert(in_graveyard.contains(c));
            },
            CardPosition::Hand(p) => {
                assert(held.contains(c));
            },
            CardPosition::DrawnCard(p) => {
                assert(taken.contains(c));
            },
        }
    }
    assert(card_ids(n) =~= piles + moving);
}

/// Everything that can happen to a table: one case for each entry point of
/// the rules, with what the entry point is given.
pub enum Action {
    SpawnPlayer,
    StartGame,
    SpawnGraveyard,
    /// The cards are made in the given order.
    SpawnCards(Seq<(Suit, u8)>),
    DealInitialHands,
    StartTurn,
    /// A left click, with the time in milliseconds.
    Click(Click, u64),
    DeckClick,
    GraveyardClick,
    CardClick(usize, u64),
    Discard(usize),
    Swap(usize),
    TargetClick(usize),
    /// The activate signal.
    Activate,
    /// A Reveal resolves, chance picking the given candidate.
    Reveal(usize),
    Shuffle,
    SwapEffect,
    NextTurn,
    DeselectAll,
    EndRound,
    RevealAll,
    NewRound,
    ReturnToMenu,
}

/// The table after `action`.
pub open spec fn step(s: GameView, action: Action) -> GameView {
    match action {
        Action::SpawnPlayer => after_seating(s),
        Action::StartGame => after_start_game(s),
        Action::SpawnGraveyard => after_graveyard(s),
        Action::SpawnCards(order) => after_spawn(s, order),
        Action::DealInitialHands => after_deal(s),
        Action::StartTurn => after_start_turn(s),
        Action::Click(click, now) => after_selection(s, click, now),
        Action::DeckClick => after_deck_click(s),
        Action::GraveyardClick => after_graveyard_click(s),
        Action::CardClick(c, now) => after_card_click(s, c, now),
        Action::Discard(c) => after_discard(s, c),
        Action::Swap(c) => after_swap(s, c),
        Action::TargetClick(c) => after_target_click(s, c),
        Action::Activate => after_activation(s),
        Action::Reveal(pick) => after_reveal(s, pick),
        Action::Shuffle => after_shuffle(s),
        Action::SwapEffect => after_swap_effect(s),
        Action::NextTurn => after_next_turn(s),
        Action::DeselectAll => s.deselected(),
        Action::EndRound => after_end_round(s),
        Action::RevealAll => after_reveal_all(s),
        Action::NewRound => after_new_round(s),
        Action::ReturnToMenu => after_leave_game(s),
    }
}

/// Whether `action` is one that can pass the turn: a discard, a swap with
/// the hand, a click that amounts to one of them, or the request to pass.
pub open spec fn passes_turn(action: Action) -> bool {
    action is Discard || action is Swap || action is CardClick || action is Click
        || action is NextTurn
}

/// The invariant holds at all times: a fresh table is well formed, and
/// whatever happens to a well-formed table leaves it well formed. So every
/// card of every table that play can reach lies in exactly one zone, and
/// the zones together hold all the cards.
pub proof fn law_always_well_formed(s: GameView, action: Action)
    requires
        s.wf(),
        action matches Action::SpawnCards(order) ==> order.len() <= usize::MAX,
    ensures
        GameView::initial().wf(),
        step(s, action).wf(),
        !(action is SpawnCards || action is NewRound || action is ReturnToMenu) ==> s.draws_on(
            step(s, action),
        ),
        !(action is SpawnCards || action is NewRound || action is ReturnToMenu
            || action is DeckClick || action is Click) ==> s.plays_on(step(s, action)),
{
    match action {
        Action::SpawnPlayer => lemma_seating_wf(s),
        Action::StartGame => lemma_start_game_wf(s),
        Action::SpawnGraveyard => lemma_spawn_graveyard_wf(s),
        Action::SpawnCards(order) => lemma_spawn_wf(s, order),
        Action::DealInitialHands => lemma_deal_wf(s),
        Action::StartTurn => lemma_start_turn_wf(s),
        Action::Click(click, now) => lemma_selection_wf(s, click, now),
        Action::DeckClick => lemma_deck_click_wf(s),
        Action::GraveyardClick => lemma_graveyard_click_wf(s),
        Action::CardClick(c, now) => lemma_card_click_wf(s, c, now),
        Action::Discard(c) => lemma_discard_wf(s, c),
        Action::Swap(c) => lemma_swap_wf(s, c),
        Action::TargetClick(c) => lemma_target_click_wf(s, c),
        Action::Activate => lemma_activation_wf(s),
        Action::Reveal(pick) => lemma_reveal_wf(s, pick),
        Action::Shuffle => lemma_shuffle_wf(s),
        Action::SwapEffect => lemma_swap_effect_wf(s),
        Action::NextTurn => lemma_next_turn_wf(s),
        Action::DeselectAll => lemma_deselected_wf(s),
        Action::EndRound => lemma_end_round_wf(s),
        Action::RevealAll => lemma_reveal_all_wf(s),
        Action::NewRound => lemma_new_round_wf(s),
        Action::ReturnToMenu => lemma_leave_game_wf(s),
    }
}

/// The round has forty-eight cards: once the shuffled deck has been made,
/// the zones hold forty-eight cards between them, and they still do after
/// anything that happens before the table is cleared.
pub proof fn law_forty_eight_cards(s: GameView, order: Seq<(Suit, u8)>, action: Action)
    requires
        s.wf(),
        spawn_result(s) is Ok,
        order.to_multiset() == full_deck().to_multiset(),
        !(action is NewRound || action is ReturnToMenu || action is SpawnCards),
    ensures
        after_spawn(s, order).cards_in_zones() == DECK_SIZE,
        step(after_spawn(s, order), action).cards_in_zones() == DECK_SIZE,
{
    broadcast use vstd::seq_lib::group_to_multiset_ensures;

    assert(order.len() == order.to_multiset().len());
    assert(full_deck().len() == full_deck().to_multiset().len());
    let t = after_spawn(s, order);
    lemma_spawn_wf(s, order);
    law_conservation(t);
    law_always_well_formed(t, action);
    law_conservation(step(t, action));
}

/// The order of play: at a table of two or more the turn passes to the
/// next seat round the table, which is another seat than the one that was
/// up, and that player has not drawn yet.
pub proof fn law_change_turn(s: GameView)
    requires
        s.wf(),
        s.turn is Some,
        s.players.len() >= 2,
    ensures
        s.after_change_turn().turn == Some(
            crate::turn_player::Turn { current_player: s.next_player(), has_drawn_card: false },
        ),
        s.next_player() == (s.current_player() + 1) % (s.players.len() as int),
        s.next_player() != s.current_player(),
        s.has_player(s.next_player()),
{
    let n = s.players.len();
    let cur = s.current_player();
    if cur + 1 >= n {
        vstd::arithmetic::div_mod::lemma_mod_self_0(n as int);
    } else {
        vstd::arithmetic::div_mod::lemma_small_mod((cur + 1) as nat, n);
    }
}

/// Turn monotonicity: during play the player who is up changes only by the
/// turn passing on. Whatever happens, afterwards either the same player is
/// up, or the table seats at least two, what happened was a discard, a swap
/// or the request to pass, and the turn stands as passing it on leaves it:
/// with the next seat round the table, never the same player and never a
/// seat further on. Only leaving the game ends the turn altogether.
pub proof fn law_turn_monotonicity(s: GameView, action: Action)
    requires
        s.wf(),
        s.state == AppState::PlayerTurn,
        action matches Action::SpawnCards(order) ==> order.len() <= usize::MAX,
    ensures
        step(s, action).turn is None ==> action is ReturnToMenu,
        step(s, action).turn matches Some(after) ==> after.current_player == s.current_player() || (
        passes_turn(action) && s.players.len() >= 2 && after == (crate::turn_player::Turn {
            current_player: s.next_player(),
            has_drawn_card: false,
        }) && s.next_player() == (s.current_player() + 1) % (s.players.len() as int)
            && s.next_player() != s.current_player()),
{
    if s.players.len() >= 2 {
        law_change_turn(s);
    }
    match action {
        Action::DealInitialHands => {
            lemma_deal_wf(s);
        },
        Action::Click(click, now) => {
            lemma_selection_wf(s, click, now);
        },
        Action::CardClick(c, now) => {
            lemma_card_click_wf(s, c, now);
        },
        _ => {},
    }
}

/// Draw guard: a second click on the deck in the same turn, with no
/// discard or swap in between, is refused and leaves the table as the first
/// draw left it. The same goes for a click on the graveyard after the draw.
pub proof fn law_draw_guard(s: GameView)
    requires
        s.wf(),
        deck_click_result(s) is Ok,
    ensures
        deck_click_result(after_deck_click(s)) == Err::<usize, Rejection>(
            Rejection::AlreadyDrewThisTurn,
        ),
        after_deck_click(after_deck_click(s)) == after_deck_click(s),
        graveyard_click_result(after_deck_click(s)) == Err::<usize, Rejection>(
            Rejection::AlreadyDrewThisTurn,
        ),
        after_graveyard_click(after_deck_click(s)) == after_deck_click(s),
{
}

/// Swap atomicity: a swap with the hand either completes in full or
/// changes nothing. Where it completes, the drawn card lies face down in
/// the hand of the player who swapped, the clicked card lies face up on top
/// of the graveyard, the hand holds the drawn card and no longer the
/// clicked one, and the turn has passed on. Where it is refused, the table
/// is exactly as before.
pub proof fn law_swap_atomicity(s: GameView, clicked: usize)
    requires
        s.wf(),
    ensures
        match swap_result(s, clicked) {
            Ok(drawn) => {
                let t = after_swap(s, clicked);
                let p = s.current_player();
                &&& t.cards[drawn as int] == (crate::card::Card {
                    selected: None,
                    ..taken_in(s.cards[drawn as int], p)
                })
                &&& t.cards[clicked as int] == (crate::card::Card {
                    selected: None,
                    ..discarded(s.cards[clicked as int])
                })
                &&& t.hand(p).contains(drawn)
                &&& !t.hand(p).contains(clicked)
                &&& t.hand(p).len() == s.hand(p).len()
                &&& t.graveyard == Some(s.graveyard->0.push(clicked))
                &&& t.turn == s.after_change_turn().turn
            },
            Err(_) => after_swap(s, clicked) == s,
        },
{
    if let Ok(drawn) = swap_result(s, clicked) {
        let p = s.current_player();
        let hand = s.hand(p);
        let k = hand.index_of(clicked);
        lemma_drawn_card(s, p);
        assert(s.card_wf(clicked as int));
        assert(s.lists(s.players[p as int].hand, CardPosition::Hand(p)));
        assert(hand.contains(clicked));
        assert(!hand.contains(drawn));
        lemma_replace_entry(hand, k, drawn);
        let hand2 = hand.remove(k).push(drawn);
        assert(after_swap(s, clicked).hand(p) == hand2);
        if hand2.contains(clicked) {
            let i = choose|i: int| 0 <= i < hand2.len() && hand2[i] == clicked;
            assert(hand2[i] == drawn || hand2[i] != hand[k]);
        }
    }
}

/// A card drawn from the graveyard carries no usable effect: right after
/// the draw the activate signal is refused, whatever the card is worth.
pub proof fn law_graveyard_draw_carries_no_effect(s: GameView)
    requires
        s.wf(),
        graveyard_click_result(s) is Ok,
    ensures
        activation_result(after_graveyard_click(s)) is Err,
        !s.effect.pending() ==> activation_result(after_graveyard_click(s)) == Err::<
            crate::special_cards::SpecialEffect,
            Rejection,
        >(Rejection::NoEligibleCard),
        after_activation(after_graveyard_click(s)) == after_graveyard_click(s),
{
    let t = after_graveyard_click(s);
    let c = graveyard_click_result(s)->Ok_0;
    lemma_graveyard_click_wf(s);
    lemma_drawn_card(t, t.current_player());
    assert(s.lists(s.graveyard->0, CardPosition::Graveyard));
    assert(t.is_drawn_by(c as int, t.current_player()));
}

/// A power card drawn from the deck carries its effect: right after the
/// draw of a card worth 7, 9 or 11, with no effect in progress, the
/// activate signal triggers the effect that goes with the value.
pub proof fn law_deck_draw_carries_effect(s: GameView)
    requires
        s.wf(),
        deck_click_result(s) is Ok,
        !s.effect.pending(),
        effect_of_value(s.cards[deck_click_result(s)->Ok_0 as int].value) is Some,
    ensures
        activation_result(after_deck_click(s)) == Ok::<
            crate::special_cards::SpecialEffect,
            Rejection,
        >(effect_of_value(s.cards[deck_click_result(s)->Ok_0 as int].value)->0),
{
    let t = after_deck_click(s);
    let c = deck_click_result(s)->Ok_0;
    lemma_deck_click_wf(s);
    lemma_drawn_card(t, t.current_player());
    assert(s.lists(s.deck->0, CardPosition::Deck));
    assert(t.is_drawn_by(c as int, t.current_player()));
}

/// Eligibility comes from the deck alone: whatever happens, a card is
/// eligible for its effect afterwards only if it was eligible before or is
/// the card that was just drawn from the deck.
pub proof fn law_eligibility_comes_from_deck(s: GameView, action: Action, c: usize)
    requires
        s.wf(),
        !(action is SpawnCards || action is NewRound || action is ReturnToMenu),
        s.has_card(c),
        step(s, action).cards[c as int].from_deck,
    ensures
        step(s, action).cards[c as int].position is DrawnCard,
        s.cards[c as int].from_deck || (s.cards[c as int].position == CardPosition::Deck && (
        action is DeckClick || action is Click)),
{
    law_always_well_formed(s, action);
    let t = step(s, action);
    assert(t.card_wf(c as int));
    assert(t.cards[c as int].from_deck ==> s.cards[c as int].from_deck
        || s.cards[c as int].position is Deck);
}

} // verus!
