//! Commands, and the phase of the key stroke that gives one.

use vstd::prelude::*;
use vstd::string::*;
use crate::pages::PageId;

verus! {

/// A command of the home page.
#[derive(Clone, Copy, Debug, PartialEq, Eq, Structural)]
pub enum HomeAction {
    Up,
    Down,
    Select,
}

/// A command of the game page.
#[derive(Clone, Copy, Debug, PartialEq, Eq, Structural)]
pub enum GameAction {
    Left,
    Right,
    Up,
    Down,
}

/// A command of the card page.
#[derive(Clone, Copy, Debug, PartialEq, Eq, Structural)]
pub enum CardAction {
    Up,
    Down,
}

/// The phase of a key stroke: `Start` when the key goes down (or is
/// clicked), `Repeat` while the terminal repeats a held key, `End` when the
/// key is released.
#[derive(Clone, Copy, Debug, PartialEq, Eq, Structural)]
pub enum ActionState {
    Start,
    Repeat,
    End,
}

impl Default for ActionState {
    fn default() -> (s: ActionState)
        ensures
            s == ActionState::Start,
    {
        ActionState::Start
    }
}

/// A command.
#[derive(Debug, PartialEq, Eq)]
pub enum Command {
    Tick,
    Render,
    Resize(u16, u16),
    Suspend,
    Resume,
    Quit,
    Refresh,
    Error(String),
    Help,
    ToggleShowHelp,
    StartGame,
    ShowCard,
    Home(HomeAction),
    Game(GameAction),
    Card(CardAction),
}

impl Clone for Command {
    fn clone(&self) -> (c: Command)
        ensures
            c == *self,
    {
        match self {
            Command::Tick => Command::Tick,
            Command::Render => Command::Render,
            Command::Resize(w, h) => Command::Resize(*w, *h),
            Command::Suspend => Command::Suspend,
            Command::Resume => Command::Resume,
            Command::Quit => Command::Quit,
            Command::Refresh => Command::Refresh,
            Command::Error(message) => Command::Error(message.clone()),
            Command::Help => Command::Help,
            Command::ToggleShowHelp => Command::ToggleShowHelp,
            Command::StartGame => Command::StartGame,
            Command::ShowCard => Command::ShowCard,
            Command::Home(a) => Command::Home(*a),
            Command::Game(a) => Command::Game(*a),
            Command::Card(a) => Command::Card(*a),
        }
    }
}

/// A command with the phase of the key stroke that gave it.
#[derive(Debug, PartialEq, Eq)]
pub struct Action {
    pub command: Command,
    pub state: ActionState,
}

impl Clone for Action {
    fn clone(&self) -> (a: Action)
        ensures
            a == *self,
    {
        Action { command: self.command.clone(), state: self.state }
    }
}

impl HomeAction {
    /// The name of the command.
    pub open spec fn name(self) -> Seq<char> {
        match self {
            HomeAction::Up => "Up"@,
            HomeAction::Down => "Down"@,
            HomeAction::Select => "Select"@,
        }
    }

    /// The name of the command.
    pub fn string(&self) -> (s: String)
        ensures
            s@ == self.name(),
    {
        match self {
            HomeAction::Up => String::from_str("Up"),
            HomeAction::Down => String::from_str("Down"),
            HomeAction::Select => String::from_str("Select"),
        }
    }
}

impl GameAction {
    /// The name of the command.
    pub open spec fn name(self) -> Seq<char> {
        match self {
            GameAction::Left => "Left"@,
            GameAction::Right => "Right"@,
            GameAction::Up => "Up"@,
            GameAction::Down => "Down"@,
        }
    }

    /// The name of the command.
    pub fn string(&self) -> (s: String)
        ensures
            s@ == self.name(),
    {
        match self {
            GameAction::Left => String::from_str("Left"),
            GameAction::Right => String::from_str("Right"),
            GameAction::Up => String::from_str("Up"),
            GameAction::Down => String::from_str("Down"),
        }
    }
}

impl CardAction {
    /// The name of the command.
    pub open spec fn name(self) -> Seq<char> {
        match self {
            CardAction::Up => "Up"@,
            CardAction::Down => "Down"@,
        }
    }

    /// The name of the command.
    pub fn string(&self) -> (s: String)
        ensures
            s@ == self.name(),
    {
        match self {
            CardAction::Up => String::from_str("Up"),
            CardAction::Down => String::from_str("Down"),
        }
    }
}

impl Command {
    /// The page whose own command this is, if it is one of a page.
    pub open spec fn scope(self) -> Option<PageId> {
        match self {
            Command::Home(_) => Some(PageId::Home),
            Command::Game(_) => Some(PageId::Game),
            Command::Card(_) => Some(PageId::Card),
            _ => None,
        }
    }

    /// The page whose own command this is, if it is one of a page.
    pub fn page(&self) -> (p: Option<PageId>)
        ensures
            p == self.scope(),
    {
        match self {
            Command::Home(_) => Some(PageId::Home),
            Command::Game(_) => Some(PageId::Game),
            Command::Card(_) => Some(PageId::Card),
            _ => None,
        }
    }

    /// The name under which the command is shown: that of the page's own
    /// command where it carries one, else that of its kind.
    pub open spec fn name(self) -> Seq<char> {
        match self {
            Command::Tick => "Tick"@,
            Command::Render => "Render"@,
            Command::Resize(_, _) => "Resize"@,
            Command::Suspend => "Suspend"@,
            Command::Resume => "Resume"@,
            Command::Quit => "Quit"@,
            Command::Refresh => "Refresh"@,
            Command::Error(_) => "Error"@,
            Command::Help => "Help"@,
            Command::ToggleShowHelp => "ToggleShowHelp"@,
            Command::StartGame => "StartGame"@,
            Command::ShowCard => "ShowCard"@,
            Command::Home(a) => a.name(),
            Command::Game(a) => a.name(),
            Command::Card(a) => a.name(),
        }
    }

    /// The name under which the command is shown.
    pub fn string(&self) -> (s: String)
        ensures
            s@ == self.name(),
    {
        match self {
            Command::Home(command) => command.string(),
            Command::Game(command) => command.string(),
            Command::Card(command) => command.string(),
            Command::Tick => String::from_str("Tick"),
            Command::Render => String::from_str("Render"),
            Command::Resize(_, _) => String::from_str("Resize"),
            Command::Suspend => String::from_str("Suspend"),
            Command::Resume => String::from_str("Resume"),
            Command::Quit => String::from_str("Quit"),
            Command::Refresh => String::from_str("Refresh"),
            Command::Error(_) => String::from_str("Error"),
            Command::Help => String::from_str("Help"),
            Command::ToggleShowHelp => String::from_str("ToggleShowHelp"),
            Command::StartGame => String::from_str("StartGame"),
            Command::ShowCard => String::from_str("ShowCard"),
        }
    }
}

impl Action {
    /// The command in the phase `Start`.
    pub fn new(command: Command) -> (a: Action)
        ensures
            a == (Action { command, state: ActionState::Start }),
    {
        Action { command, state: ActionState::Start }
    }
}

} // verus!
