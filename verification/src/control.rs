//! Top-level control flow: which screen is showing, and what a screen
//! asks the host loop to do next.

use vstd::prelude::*;

verus! {

/// What a screen hands back to the host loop.
#[derive(Clone, Copy, PartialEq, Eq, Structural, Debug)]
pub enum Flow {
    StartGame,
    PlayAgain,
    LoseGame,
}

/// Which screen is showing.
#[derive(Clone, Copy, PartialEq, Eq, Structural, Debug)]
pub enum State {
    StartMenu,
    PlayAgainMenu,
    Playing,
}

/// The host loop's transition: a flow moves the control state to the
/// next screen; without one the state stays.
pub fn next_state(state: State, flow: Option<Flow>) -> (r: State)
    ensures
        r == (match flow {
            Some(Flow::StartGame) => State::Playing,
            Some(Flow::PlayAgain) => State::Playing,
            Some(Flow::LoseGame) => State::PlayAgainMenu,
            None => state,
        }),
{
    match flow {
        Some(Flow::StartGame) => State::Playing,
        Some(Flow::PlayAgain) => State::Playing,
        Some(Flow::LoseGame) => State::PlayAgainMenu,
        None => state,
    }
}

} // verus!
