//! The shell round the pages: which page is active, whether the help is
//! shown, and what a command does to that.
//!
//! The shell takes one command after the other. Each changes what the
//! shell knows and may ask for the screen to be drawn; unless the help is
//! shown, it is then handed on to the active page. When the commands that
//! wait have all been taken, the shell says whether the program goes on,
//! is suspended or ends.

use vstd::prelude::*;
use crate::action::Command;
use crate::pages::PageId;

verus! {

/// The mode in which styles are looked up.
#[derive(Clone, Copy, Debug, PartialEq, Eq, Hash, Structural)]
pub enum Mode {
    Home,
}

impl Default for Mode {
    fn default() -> (m: Mode)
        ensures
            m == Mode::Home,
    {
        Mode::Home
    }
}

/// The place of the home page among the pages.
pub const HOME_PAGE: usize = 0;

/// The place of the game among the pages.
pub const GAME_PAGE: usize = 1;

/// The place of the card among the pages.
pub const CARD_PAGE: usize = 2;

/// What the screen needs after a command.
#[derive(Clone, Copy, Debug, PartialEq, Eq, Structural)]
pub enum Redraw {
    /// Nothing.
    Keep,
    /// To be drawn.
    Draw,
    /// To take the size given, and to be drawn.
    Resize(u16, u16),
}

/// What the shell does with a command beyond what it notes itself.
#[derive(Clone, Copy, Debug, PartialEq, Eq, Structural)]
pub struct Outcome {
    /// What the screen needs.
    pub redraw: Redraw,
    /// Whether the active page gets the command too.
    pub forward: bool,
}

/// What the program does once the commands that waited have been taken.
#[derive(Clone, Copy, Debug, PartialEq, Eq, Structural)]
pub enum NextStep {
    /// Go on.
    Continue,
    /// Give the terminal back until the program is resumed.
    Suspend,
    /// End.
    Quit,
}

/// What the shell knows.
#[derive(Clone, Copy, Debug, PartialEq, Eq, Structural)]
pub struct AppState {
    pub should_quit: bool,
    pub should_suspend: bool,
    pub show_help: bool,
    /// The number of pages.
    pub page_count: usize,
    /// The place of the active page among the pages.
    pub active_page_index: usize,
    /// Whether the snowman is part of the background.
    pub show_snowman: bool,
    /// Whether the tree is part of the background.
    pub show_tree: bool,
}

impl AppState {
    /// The shell with page `index` active, if there is such a page; else
    /// the shell as it is.
    pub open spec fn with_page(self, index: usize) -> AppState {
        if index < self.page_count {
            AppState { active_page_index: index, ..self }
        } else {
            self
        }
    }

    /// The shell after the command `command`.
    pub open spec fn after(self, command: Command) -> AppState {
        match command {
            Command::Quit => AppState { should_quit: true, ..self },
            Command::Suspend => AppState { should_suspend: true, ..self },
            Command::Resume => AppState { should_suspend: false, ..self },
            Command::ToggleShowHelp => AppState { show_help: !self.show_help, ..self },
            Command::StartGame => (AppState {
                show_snowman: false,
                show_tree: false,
                ..self
            }).with_page(GAME_PAGE),
            Command::ShowCard => self.with_page(CARD_PAGE),
            _ => self,
        }
    }

    /// What the screen needs after the command `command`.
    pub open spec fn redraw_for(command: Command) -> Redraw {
        match command {
            Command::Resize(w, h) => Redraw::Resize(w, h),
            Command::Render => Redraw::Draw,
            _ => Redraw::Keep,
        }
    }

    /// What the program does once the commands that waited have been taken:
    /// it is suspended where that was asked for, else it ends where that was
    /// asked for, else it goes on.
    pub open spec fn next_step(self) -> NextStep {
        if self.should_suspend {
            NextStep::Suspend
        } else if self.should_quit {
            NextStep::Quit
        } else {
            NextStep::Continue
        }
    }

    /// The page whose bindings hold while page `index` is active. The card
    /// goes by the bindings of the home page.
    pub open spec fn page_id_of(index: usize) -> PageId {
        if index == GAME_PAGE {
            PageId::Game
        } else {
            PageId::Home
        }
    }

    /// The shell of `page_count` pages as the program begins: the first
    /// page active, the help hidden, the whole background shown.
    pub fn new(page_count: usize) -> (app: AppState)
        ensures
            app == (AppState {
                should_quit: false,
                should_suspend: false,
                show_help: false,
                page_count,
                active_page_index: 0,
                show_snowman: true,
                show_tree: true,
            }),
    {
        AppState {
            should_quit: false,
            should_suspend: false,
            show_help: false,
            page_count,
            active_page_index: 0,
            show_snowman: true,
            show_tree: true,
        }
    }

    /// The place of the active page among the pages.
    pub fn get_active_page(&self) -> (index: usize)
        ensures
            index == self.active_page_index,
    {
        self.active_page_index
    }

    /// Makes page `index` the active one, if there is such a page.
    pub fn set_active_page(&mut self, index: usize)
        ensures
            *final(self) == old(self).with_page(index),
    {
        if index < self.page_count {
            self.active_page_index = index;
        }
    }

    /// The page whose bindings hold now.
    pub fn active_page_id(&self) -> (id: PageId)
        ensures
            id == AppState::page_id_of(self.active_page_index),
    {
        if self.active_page_index == GAME_PAGE {
            PageId::Game
        } else {
            PageId::Home
        }
    }

    /// Takes the command `command`: notes what it changes, and says what
    /// the screen needs and whether the active page gets the command too,
    /// which it does unless the help is shown.
    pub fn handle(&mut self, command: &Command) -> (outcome: Outcome)
        ensures
            *final(self) == old(self).after(*command),
            outcome.redraw == AppState::redraw_for(*command),
            outcome.forward == !final(self).show_help,
    {
        let mut redraw = Redraw::Keep;
        match command {
            Command::Tick => {},
            Command::Quit => {
                self.should_quit = true;
            },
            Command::Suspend => {
                self.should_suspend = true;
            },
            Command::Resume => {
                self.should_suspend = false;
            },
            Command::ToggleShowHelp => {
                self.show_help = !self.show_help;
            },
            Command::Resize(w, h) => {
                redraw = Redraw::Resize(*w, *h);
            },
            Command::Render => {
                redraw = Redraw::Draw;
            },
            Command::StartGame => {
                self.show_snowman = false;
                self.show_tree = false;
                self.set_active_page(GAME_PAGE);
            },
            Command::ShowCard => {
                self.set_active_page(CARD_PAGE);
            },
            _ => {},
        }
        Outcome { redraw, forward: !self.show_help }
    }

    /// What the program does now that the commands that waited have been
    /// taken.
    pub fn step(&self) -> (next: NextStep)
        ensures
            next == self.next_step(),
    {
        if self.should_suspend {
            NextStep::Suspend
        } else if self.should_quit {
            NextStep::Quit
        } else {
            NextStep::Continue
        }
    }
}

/// The active page is always one of the pages, whatever commands come.
pub proof fn lemma_active_page_in_range(app: AppState, command: Command)
    requires
        app.active_page_index < app.page_count,
    ensures
        app.after(command).active_page_index < app.after(command).page_count,
        app.after(command).page_count == app.page_count,
{
}

} // verus!
