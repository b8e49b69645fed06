//! What a screen answers when it is asked for an update.

use vstd::prelude::*;

verus! {

/// What a screen answers when it is asked for an update.
#[derive(Clone, Copy, Debug, PartialEq, Eq, Structural)]
pub enum ModelResponse {
    /// Ask again.
    NoOp,
    /// Draw the screen.
    Refresh,
    /// Leave the program.
    Exit,
    /// Begin a game.
    NewGame,
    /// The player has left the game.
    QuitGame,
    /// Go back to the title.
    ReturnToTitle,
    /// The game has come to its end.
    EndGame,
}

} // verus!
