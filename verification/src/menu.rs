//! The two menus: their labels, and the flow a click produces. Drawing
//! the widgets is the host's business; the menus only decide.

use crate::control::Flow;
use vstd::prelude::*;

verus! {

broadcast use vstd::string::to_string_from_display_ensures_for_str;

/// The opening menu with its single start button.
#[derive(Clone, Copy, PartialEq, Eq, Structural, Debug)]
pub struct StartMenu;

impl StartMenu {
    pub fn new() -> (r: StartMenu)
        ensures
            r == StartMenu,
    {
        StartMenu
    }

    /// The label of the menu's button.
    pub fn button_label(&self) -> (r: String)
        ensures
            r@ == "Start game"@,
    {
        "Start game".to_string()
    }

    /// Clicking the button starts the game; anything else does nothing.
    pub fn flow(&self, clicked: bool) -> (r: Option<Flow>)
        ensures
            r == (if clicked {
                Some(Flow::StartGame)
            } else {
                None::<Flow>
            }),
    {
        if clicked {
            Some(Flow::StartGame)
        } else {
            None
        }
    }
}

/// The menu shown after losing, with its play-again button.
#[derive(Clone, Copy, PartialEq, Eq, Structural, Debug)]
pub struct PlayAgainMenu;

impl PlayAgainMenu {
    pub fn new() -> (r: PlayAgainMenu)
        ensures
            r == PlayAgainMenu,
    {
        PlayAgainMenu
    }

    pub fn button_label(&self) -> (r: String)
        ensures
            r@ == "Play again"@,
    {
        "Play again".to_string()
    }

    /// The line shown above the button.
    pub fn title(&self) -> (r: String)
        ensures
            r@ == "You lose!!"@,
    {
        "You lose!!".to_string()
    }

    /// Clicking the button restarts the game; anything else does nothing.
    pub fn flow(&self, clicked: bool) -> (r: Option<Flow>)
        ensures
            r == (if clicked {
                Some(Flow::PlayAgain)
            } else {
                None::<Flow>
            }),
    {
        if clicked {
            Some(Flow::PlayAgain)
        } else {
            None
        }
    }
}

} // verus!
