//! The pages of the program.

pub mod card;
pub mod game;
pub mod home;

use vstd::prelude::*;
use vstd::string::*;

verus! {

/// The name of a page.
#[derive(Clone, Copy, Debug, PartialEq, Eq, Hash, Structural)]
pub enum PageId {
    Home,
    Game,
    Card,
}

impl PageId {
    /// The name under which the page is shown.
    pub open spec fn name(self) -> Seq<char> {
        match self {
            PageId::Home => "Home"@,
            PageId::Game => "Game"@,
            PageId::Card => "Card"@,
        }
    }

    /// The name under which the page is shown.
    pub fn string(&self) -> (s: String)
        ensures
            s@ == self.name(),
    {
        match self {
            PageId::Home => String::from_str("Home"),
            PageId::Game => String::from_str("Game"),
            PageId::Card => String::from_str("Card"),
        }
    }
}

} // verus!
