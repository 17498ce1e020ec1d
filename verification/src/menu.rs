//! Buttons, and the way into and out of a game.

use vstd::prelude::*;
use crate::gamestate::{AppState, Game, GameView, Rejection};

verus! {

/// How a button looks.
#[derive(Clone, Copy, Debug, PartialEq, Eq, Structural)]
pub enum ButtonState {
    Normal,
    Hovered,
    Pressed,
}

/// Whether a game is on in the given phase.
pub open spec fn in_game(state: AppState) -> bool {
    state != AppState::MainMenu
}

/// Whether a game is on in the given phase.
pub fn is_in_game(state: AppState) -> (r: bool)
    ensures
        r == in_game(state),
{
    match state {
        AppState::MainMenu => false,
        _ => true,
    }
}

/// How a button looks after the pointer moved: a button held down stays
/// pressed, an idle button under the pointer lights up, a lit button the
/// pointer has left goes idle.
pub open spec fn hover_next(state: ButtonState, hovered: bool, held: bool) -> ButtonState {
    if held && state == ButtonState::Pressed {
        state
    } else if hovered && state == ButtonState::Normal {
        ButtonState::Hovered
    } else if !hovered && state == ButtonState::Hovered {
        ButtonState::Normal
    } else {
        state
    }
}

/// Follows the pointer over a button. `hovered` says whether the pointer
/// is over it, `held` whether the mouse button is down.
pub fn button_hover(state: ButtonState, hovered: bool, held: bool) -> (next: ButtonState)
    ensures
        next == hover_next(state, hovered, held),
{
    if held && state == ButtonState::Pressed {
        state
    } else if hovered && state == ButtonState::Normal {
        ButtonState::Hovered
    } else if !hovered && state == ButtonState::Hovered {
        ButtonState::Normal
    } else {
        state
    }
}

/// What the mouse button did to a button: how the button looks afterwards,
/// and whether it fired. A press over the button holds it down. A release
/// lets it go, and fires it where the pointer is still over it.
pub open spec fn click_next(
    state: ButtonState,
    just_pressed: bool,
    just_released: bool,
    over: bool,
) -> (ButtonState, bool) {
    if just_pressed && over {
        (ButtonState::Pressed, false)
    } else if just_released {
        (ButtonState::Normal, over)
    } else {
        (state, false)
    }
}

/// Follows the mouse button on a button.
pub fn button_click(state: ButtonState, just_pressed: bool, just_released: bool, over: bool) -> (r:
    (ButtonState, bool))
    ensures
        r == click_next(state, just_pressed, just_released, over),
{
    if just_pressed && over {
        (ButtonState::Pressed, false)
    } else if just_released {
        (ButtonState::Normal, over)
    } else {
        (state, false)
    }
}

/// Whether a game may start now, or why not.
pub open spec fn start_game_result(s: GameView) -> Result<(), Rejection> {
    if s.state != AppState::MainMenu {
        Err(Rejection::WrongPhase)
    } else {
        Ok(())
    }
}

/// The table once a game has started: its setup begins.
pub open spec fn after_start_game(s: GameView) -> GameView {
    if start_game_result(s) is Ok {
        GameView { state: AppState::Setup, ..s }
    } else {
        s
    }
}

/// Whether the game may be left now, or why not.
pub open spec fn leave_game_result(s: GameView) -> Result<(), Rejection> {
    if s.state == AppState::MainMenu {
        Err(Rejection::WrongPhase)
    } else {
        Ok(())
    }
}

/// The table once the game has been left: back in the menu, with every
/// zone emptied and no turn in progress. The players keep their seats.
pub open spec fn after_leave_game(s: GameView) -> GameView {
    if leave_game_result(s) is Ok {
        GameView { state: AppState::MainMenu, turn: None, ..s.cleared() }
    } else {
        s
    }
}

/// Starting a game keeps the table well formed.
pub proof fn lemma_start_game_wf(s: GameView)
    requires
        s.wf(),
    ensures
        after_start_game(s).wf(),
        s.plays_on(after_start_game(s)),
{
    let t = after_start_game(s);
    assert forall|x: int| 0 <= x < t.cards.len() implies t.card_wf(x) by {
        assert(s.card_wf(x));
    }
}

/// Leaving the game keeps the table well formed.
pub proof fn lemma_leave_game_wf(s: GameView)
    requires
        s.wf(),
    ensures
        after_leave_game(s).wf(),
{
}

/// Starts a game from the main menu: the setup phase begins. Refused, with
/// nothing changed, while a game is on.
pub fn start_game(game: &mut Game) -> (r: Result<(), Rejection>)
    requires
        old(game)@.wf(),
    ensures
        r == start_game_result(old(game)@),
        final(game)@ == after_start_game(old(game)@),
        r is Err ==> final(game)@ == old(game)@,
        final(game)@.wf(),
{
    proof {
        lemma_start_game_wf(game@);
    }
    if game.state != AppState::MainMenu {
        return Err(Rejection::WrongPhase);
    }
    game.state = AppState::Setup;
    assert(game@ =~~= after_start_game(old(game)@));
    Ok(())
}

/// Leaves the game for the main menu and clears the table. Refused, with
/// nothing changed, where no game is on.
pub fn return_to_menu(game: &mut Game) -> (r: Result<(), Rejection>)
    requires
        old(game)@.wf(),
    ensures
        r == leave_game_result(old(game)@),
        final(game)@ == after_leave_game(old(game)@),
        r is Err ==> final(game)@ == old(game)@,
        final(game)@.wf(),
{
    proof {
        lemma_leave_game_wf(game@);
    }
    if !is_in_game(game.state) {
        return Err(Rejection::WrongPhase);
    }
    game.clear_table();
    game.turn = None;
    game.state = AppState::MainMenu;
    assert(game@ =~~= after_leave_game(old(game)@));
    Ok(())
}

/// The two buttons of the main menu.
#[derive(Clone, Copy, Debug, PartialEq, Eq, Structural)]
pub enum MenuButton {
    Play,
    Exit,
}

/// Follows the mouse button on a button of the main menu.
///
/// The Play button, when it fires, starts a game. The result says how the
/// button looks afterwards and whether the program is to exit, which is
/// what the Exit button asks for when it fires.
pub fn handle_button_clicks(
    game: &mut Game,
    button: MenuButton,
    state: ButtonState,
    just_pressed: bool,
    just_released: bool,
    over: bool,
) -> (r: (ButtonState, bool))
    requires
        old(game)@.wf(),
    ensures
        r.0 == click_next(state, just_pressed, just_released, over).0,
        r.1 == (click_next(state, just_pressed, just_released, over).1 && button
            == MenuButton::Exit),
        final(game)@ == if click_next(state, just_pressed, just_released, over).1 && button
            == MenuButton::Play {
            after_start_game(old(game)@)
        } else {
            old(game)@
        },
        final(game)@.wf(),
{
    let (next, fired) = button_click(state, just_pressed, just_released, over);
    if !fired {
        return (next, false);
    }
    match button {
        MenuButton::Play => {
            let _ = start_game(game);
            (next, false)
        },
        MenuButton::Exit => (next, true),
    }
}

/// Follows the mouse button on the back button, which leaves the game when
/// it fires. The result says how the button looks afterwards.
pub fn handle_button(
    game: &mut Game,
    state: ButtonState,
    just_pressed: bool,
    just_released: bool,
    over: bool,
) -> (next: ButtonState)
    requires
        old(game)@.wf(),
    ensures
        next == click_next(state, just_pressed, just_released, over).0,
        final(game)@ == if click_next(state, just_pressed, just_released, over).1 {
            after_leave_game(old(game)@)
        } else {
            old(game)@
        },
        final(game)@.wf(),
{
    let (next, fired) = button_click(state, just_pressed, just_released, over);
    if fired {
        let _ = return_to_menu(game);
    }
    next
}

} // verus!
