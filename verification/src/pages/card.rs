//! The card that is shown when a round is finished.

use vstd::prelude::*;
use vstd::string::*;
use crate::action::{Action, ActionState, Command, HomeAction};
use crate::components::multiline::cell;
use crate::pages::PageId;

verus! {

/// The card.
#[derive(Clone, Copy, Debug, PartialEq, Eq, Structural)]
pub struct CardPage {}

/// The length of the longest of `lines`.
pub open spec fn longest_line(lines: Seq<String>) -> nat
    decreases lines.len(),
{
    if lines.len() == 0 {
        0
    } else {
        let before = longest_line(lines.drop_last());
        if lines.last()@.len() > before {
            lines.last()@.len()
        } else {
            before
        }
    }
}

/// The width of the card for the lines `lines`: two cells for each glyph of
/// the longest line, and the padding on either side.
pub open spec fn card_width(lines: Seq<String>, padding: u16) -> u16 {
    cell(cell(2 * (longest_line(lines) as int)) + cell(2 * padding))
}

/// The height of the card for the lines `lines`: a row for each line, and
/// the padding above and below.
pub open spec fn card_height(lines: Seq<String>, padding: u16) -> u16 {
    cell(cell(lines.len() as int) + cell(2 * padding))
}

impl CardPage {
    /// The card.
    pub fn new() -> (page: CardPage) {
        CardPage {  }
    }

    /// Does nothing: the card has nothing to select.
    pub fn up(&mut self)
        ensures
            *final(self) == *old(self),
    {
    }

    /// Does nothing: the card has nothing to select.
    pub fn down(&mut self)
        ensures
            *final(self) == *old(self),
    {
    }

    /// The name of the page whose bindings the card goes by.
    pub fn id(&self) -> (id: PageId)
        ensures
            id == PageId::Home,
    {
        PageId::Home
    }

    /// Takes a command: `Select` asks for the game to start, and any other
    /// command does nothing.
    pub fn update(&mut self, action: &Action) -> (reply: Option<Action>)
        ensures
            *final(self) == *old(self),
            reply == match action.command {
                Command::Home(HomeAction::Select) => Some(
                    Action { command: Command::StartGame, state: ActionState::Start },
                ),
                _ => None::<Action>,
            },
    {
        if let Command::Home(command) = &action.command {
            match command {
                HomeAction::Up => self.up(),
                HomeAction::Down => self.down(),
                HomeAction::Select => {
                    return Some(Action::new(Command::StartGame));
                },
            }
        }
        None
    }

    /// Width and height of the card for the lines `lines`, with the padding
    /// `hpadding` on either side and `vpadding` above and below.
    pub fn card_size(&self, lines: &Vec<String>, hpadding: u16, vpadding: u16) -> (size: (u16, u16))
        ensures
            size.0 == card_width(lines@, hpadding),
            size.1 == card_height(lines@, vpadding),
    {
        let mut longest: usize = 0;
        let mut i: usize = 0;
        assert(lines@.take(0) =~= Seq::<String>::empty());
        while i < lines.len()
            invariant
                i <= lines.len(),
                longest == longest_line(lines@.take(i as int)),
            decreases lines.len() - i,
        {
            proof {
                assert(lines@.take(i + 1).drop_last() =~= lines@.take(i as int));
                assert(lines@.take(i + 1).last() == lines@[i as int]);
            }
            let len = lines[i].as_str().unicode_len();
            if len > longest {
                longest = len;
            }
            i += 1;
        }
        assert(lines@.take(lines.len() as int) =~= lines@);
        let glyphs: u32 = if longest > 0x7fff { 0xffff } else { 2 * longest as u32 };
        let hpad: u32 = if hpadding > 0x7fff { 0xffff } else { 2 * hpadding as u32 };
        let vpad: u32 = if vpadding > 0x7fff { 0xffff } else { 2 * vpadding as u32 };
        let rows: u32 = if lines.len() > 0xffff { 0xffff } else { lines.len() as u32 };
        let width: u32 = if glyphs + hpad > 0xffff { 0xffff } else { glyphs + hpad };
        let height: u32 = if rows + vpad > 0xffff { 0xffff } else { rows + vpad };
        (width as u16, height as u16)
    }
}

} // verus!
