//! The game-flow state machine: Menu, InGame, Paused and GameOver, with a
//! double-buffered pending transition that takes effect only at a tick
//! boundary, so no system ever observes a half-applied state change.

use vstd::prelude::*;

verus! {

/// The top-level states of the game.
#[derive(Clone, Copy, Debug, PartialEq, Eq, Structural)]
pub enum GameState {
    Menu,
    InGame,
    Paused,
    GameOver,
}

impl Default for GameState {
    /// The game starts at the menu.
    fn default() -> (r: Self)
        ensures
            r == GameState::Menu,
    {
        GameState::Menu
    }
}

/// The per-tick state of the logical input actions the simulation
/// consumes, already merged over keyboard and gamepad by the caller,
/// except for the analog stick axis, which is handed over raw in
/// thousandths.
#[derive(Clone, Copy, Debug, PartialEq, Eq, Structural)]
pub struct InputState {
    /// Rotate counterclockwise is held.
    pub rotate_left: bool,
    /// Rotate clockwise is held.
    pub rotate_right: bool,
    /// Thrust is held.
    pub thrust: bool,
    /// Fire is held.
    pub fire: bool,
    /// Start was just pressed.
    pub start: bool,
    /// Exit was just pressed.
    pub exit: bool,
    /// Continue was just pressed.
    pub resume: bool,
    /// Gamepad stick X deflection, in thousandths of full scale.
    pub axis_x_milli: i64,
}

impl InputState {
    /// No action held or pressed, stick centered.
    pub fn idle() -> (r: InputState)
        ensures
            r == (InputState {
                rotate_left: false,
                rotate_right: false,
                thrust: false,
                fire: false,
                start: false,
                exit: false,
                resume: false,
                axis_x_milli: 0,
            }),
    {
        InputState {
            rotate_left: false,
            rotate_right: false,
            thrust: false,
            fire: false,
            start: false,
            exit: false,
            resume: false,
            axis_x_milli: 0,
        }
    }
}

/// The flow controller: the current state and the pending one, applied at
/// the next tick boundary.
#[derive(Clone, Copy, Debug, PartialEq, Eq, Structural)]
pub struct Flow {
    pub state: GameState,
    pub next: Option<GameState>,
}

/// The pending transition a Menu or GameOver input pass leaves behind.
pub open spec fn menu_transition(
    state: GameState,
    input: InputState,
    pending: Option<GameState>,
) -> Option<GameState> {
    if state == GameState::Menu && input.start {
        Some(GameState::InGame)
    } else if state == GameState::GameOver && input.resume {
        Some(GameState::Menu)
    } else {
        pending
    }
}

impl Flow {
    /// A fresh controller, at the menu with nothing pending.
    pub fn new() -> (r: Flow)
        ensures
            r.state == GameState::Menu,
            r.next is None,
    {
        Flow { state: GameState::Menu, next: None }
    }

    /// Requests a transition; it takes effect only at the next tick
    /// boundary.
    pub fn set_next(&mut self, s: GameState)
        ensures
            final(self).state == old(self).state,
            final(self).next == Some(s),
    {
        self.next = Some(s);
    }

    /// The tick boundary: applies the pending transition, if any.  Returns
    /// the state that was left, paired with the state entered, when a
    /// transition actually happened.
    pub fn apply_pending(&mut self) -> (r: Option<(GameState, GameState)>)
        ensures
            final(self).next is None,
            old(self).next matches Some(s) ==> final(self).state == s,
            old(self).next is None ==> final(self).state == old(self).state,
            r matches Some((from, to)) ==> old(self).next == Some(to) && from == old(self).state
                && to != old(self).state,
            r is None ==> final(self).state == old(self).state,
    {
        match self.next {
            Some(s) => {
                let from = self.state;
                self.state = s;
                self.next = None;
                if !states_equal(from, s) {
                    Some((from, s))
                } else {
                    None
                }
            },
            None => None,
        }
    }
}

/// Structural equality of two states, executable.
pub fn states_equal(a: GameState, b: GameState) -> (r: bool)
    ensures
        r == (a == b),
{
    match (a, b) {
        (GameState::Menu, GameState::Menu) => true,
        (GameState::InGame, GameState::InGame) => true,
        (GameState::Paused, GameState::Paused) => true,
        (GameState::GameOver, GameState::GameOver) => true,
        _ => false,
    }
}

/// The input pass that runs while the flow sits in Menu or GameOver:
/// start enters the game from the menu, continue returns to the menu from
/// game over, and exit at the menu asks the process to quit.  Returns
/// whether the process should quit.
pub fn manage_inputs(flow: &mut Flow, input: &InputState) -> (exit_app: bool)
    ensures
        final(flow).state == old(flow).state,
        final(flow).next == menu_transition(old(flow).state, *input, old(flow).next),
        exit_app == (old(flow).state == GameState::Menu && input.exit),
{
    let at_menu = states_equal(flow.state, GameState::Menu);
    let at_gameover = states_equal(flow.state, GameState::GameOver);
    if at_menu && input.start {
        flow.set_next(GameState::InGame);
    } else if at_gameover && input.resume {
        flow.set_next(GameState::Menu);
    }
    at_menu && input.exit
}

/// The in-game exit input: pressing exit while playing schedules a return
/// to the menu.
pub fn exit_to_menu(flow: &mut Flow)
    ensures
        final(flow).state == old(flow).state,
        final(flow).next == Some(GameState::Menu),
{
    flow.set_next(GameState::Menu);
}

/// The text overlay a state shows, if any: the menu and the game-over
/// screen each spawn one on entry and despawn it on exit.
pub fn overlay_text(s: GameState) -> (r: Option<&'static str>)
    ensures
        s == GameState::Menu ==> (r matches Some(t) && t@ == "Asteroids\nPress Space to start"@),
        s == GameState::GameOver ==> (r matches Some(t) && t@
            == "Game Over\nPress Space to continue"@),
        s == GameState::InGame || s == GameState::Paused ==> r is None,
{
    match s {
        GameState::Menu => Some("Asteroids\nPress Space to start"),
        GameState::GameOver => Some("Game Over\nPress Space to continue"),
        GameState::InGame => None,
        GameState::Paused => None,
    }
}

} // verus!
