use vstd::prelude::*;

verus! {

/// The screens of a session.
#[derive(Clone, Copy, Debug, PartialEq, Eq, Structural)]
pub enum GameState {
    MainMenu,
    Playing,
    GameOver,
}

pub open spec fn next_state(s: GameState, confirm: bool) -> GameState {
    match s {
        GameState::MainMenu => if confirm { GameState::Playing } else { s },
        GameState::GameOver => if confirm { GameState::MainMenu } else { s },
        GameState::Playing => s,
    }
}

impl GameState {
    /// The state after one frame of input: the confirm key starts play from
    /// the menu and returns to the menu from the game-over screen. Leaving
    /// play is decided by whoever watches lives and survivors.
    pub fn next(self, confirm: bool) -> (r: GameState)
        ensures
            r == next_state(self, confirm),
    {
        match self {
            GameState::MainMenu => if confirm { GameState::Playing } else { self },
            GameState::GameOver => if confirm { GameState::MainMenu } else { self },
            GameState::Playing => self,
        }
    }
}

} // verus!
