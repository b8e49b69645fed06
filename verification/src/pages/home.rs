//! The home page: a list of options, one of them selected.

use vstd::prelude::*;
use vstd::string::*;
use crate::action::{Action, ActionState, Command, HomeAction};
use crate::components::multiline::cell;
use crate::pages::PageId;
use crate::style::{Color, Style};

verus! {

/// What an option of the home page does.
#[derive(Clone, Copy, Debug, PartialEq, Eq, Structural)]
pub enum OptionItem {
    Start,
}

/// The home page.
pub struct HomePage {
    options: Vec<(OptionItem, &'static str)>,
    selected_option_index: usize,
}

/// The title `title` as an option is shown: two spaces, the title, and
/// spaces up to the length `longest` of the longest title and two more.
pub open spec fn padded(title: Seq<char>, longest: nat) -> Seq<char> {
    Seq::new(2, |i: int| ' ') + title + Seq::new(
        (longest - title.len() + 2) as nat,
        |i: int| ' ',
    )
}

/// The length of the longest title of `options`.
pub open spec fn longest_title(options: Seq<(OptionItem, &'static str)>) -> nat
    decreases options.len(),
{
    if options.len() == 0 {
        0
    } else {
        let before = longest_title(options.drop_last());
        if options.last().1@.len() > before {
            options.last().1@.len()
        } else {
            before
        }
    }
}

/// The style of an option: black on blue where it is the selected one,
/// white on dark grey where it is not.
pub open spec fn option_style(selected: bool) -> Style {
    if selected {
        Style { fg: Some(Color::Black), bg: Some(Color::Blue), ..Style::plain() }
    } else {
        Style { fg: Some(Color::White), bg: Some(Color::DarkGray), ..Style::plain() }
    }
}

/// No title is longer than the longest.
pub proof fn lemma_longest_title(options: Seq<(OptionItem, &'static str)>, i: int)
    requires
        0 <= i < options.len(),
    ensures
        options[i].1@.len() <= longest_title(options),
    decreases options.len(),
{
    if i < options.len() - 1 {
        lemma_longest_title(options.drop_last(), i);
        assert(options.drop_last()[i] == options[i]);
    }
}

impl HomePage {
    /// Holds of every home page: it has an option, and one of its options
    /// is the selected one.
    #[verifier::type_invariant]
    pub closed spec fn well_formed(self) -> bool {
        self.selected_option_index < self.options.len()
    }

    /// The options: what each does, and its title.
    pub closed spec fn options(self) -> Seq<(OptionItem, &'static str)> {
        self.options@
    }

    /// The place of the selected option among the options.
    pub closed spec fn selected(self) -> int {
        self.selected_option_index as int
    }

    /// The home page with its one option, to start playing.
    pub fn new() -> (page: HomePage)
        ensures
            page.options() == seq![(OptionItem::Start, "Start playing")],
            page.selected() == 0,
    {
        HomePage { options: vec![(OptionItem::Start, "Start playing")], selected_option_index: 0 }
    }

    /// Selects the option after the selected one, if there is one.
    pub fn up(&mut self)
        ensures
            final(self).options() == old(self).options(),
            final(self).selected() == if old(self).selected() < old(self).options().len() - 1 {
                old(self).selected() + 1
            } else {
                old(self).selected()
            },
    {
        proof {
            use_type_invariant(&*self);
        }
        if self.selected_option_index < self.options.len() - 1 {
            self.selected_option_index += 1;
        }
    }

    /// Selects the option before the selected one, if there is one.
    pub fn down(&mut self)
        ensures
            final(self).options() == old(self).options(),
            final(self).selected() == if old(self).selected() > 0 {
                old(self).selected() - 1
            } else {
                old(self).selected()
            },
    {
        proof {
            use_type_invariant(&*self);
        }
        if self.selected_option_index > 0 {
            self.selected_option_index -= 1;
        }
    }

    /// The name of the page.
    pub fn id(&self) -> (id: PageId)
        ensures
            id == PageId::Home,
    {
        PageId::Home
    }

    /// The place of the selected option among the options.
    pub fn selected_option(&self) -> (i: usize)
        ensures
            i == self.selected(),
            i < self.options().len(),
    {
        proof {
            use_type_invariant(self);
        }
        self.selected_option_index
    }

    /// Takes a command: `Up` and `Down` move the selection, `Select` asks
    /// for the game to start, and any other command does nothing.
    pub fn update(&mut self, action: &Action) -> (reply: Option<Action>)
        ensures
            final(self).options() == old(self).options(),
            reply == match action.command {
                Command::Home(HomeAction::Select) => Some(
                    Action { command: Command::StartGame, state: ActionState::Start },
                ),
                _ => None::<Action>,
            },
            final(self).selected() == match action.command {
                Command::Home(HomeAction::Up) => if old(self).selected() < old(self).options().len()
                    - 1 {
                    old(self).selected() + 1
                } else {
                    old(self).selected()
                },
                Command::Home(HomeAction::Down) => if old(self).selected() > 0 {
                    old(self).selected() - 1
                } else {
                    old(self).selected()
                },
                _ => old(self).selected(),
            },
    {
        if let Command::Home(command) = &action.command {
            match command {
                HomeAction::Up => {
                    self.up();
                },
                HomeAction::Down => {
                    self.down();
                },
                HomeAction::Select => {
                    return Some(Action::new(Command::StartGame));
                },
            }
        }
        None
    }

    /// The length of the longest title.
    fn max_option_len(&self) -> (n: usize)
        ensures
            n == longest_title(self.options()),
    {
        let mut n: usize = 0;
        let mut i: usize = 0;
        assert(self.options@.take(0) =~= Seq::<(OptionItem, &'static str)>::empty());
        while i < self.options.len()
            invariant
                i <= self.options.len(),
                n == longest_title(self.options@.take(i as int)),
            decreases self.options.len() - i,
        {
            proof {
                assert(self.options@.take(i + 1).drop_last() =~= self.options@.take(i as int));
                assert(self.options@.take(i + 1).last() == self.options@[i as int]);
            }
            let len = self.options[i].1.unicode_len();
            if len > n {
                n = len;
            }
            i += 1;
        }
        assert(self.options@.take(self.options.len() as int) =~= self.options@);
        n
    }

    /// The width of the list of options: the longest title and two spaces
    /// on either side.
    pub fn option_width(&self) -> (w: u16)
        ensures
            w == cell(longest_title(self.options()) as int + 4),
    {
        let n = self.max_option_len();
        if n > 0xffff - 4 {
            0xffff
        } else {
            (n + 4) as u16
        }
    }

    /// The title of each option as it is shown, all of one length.
    pub fn option_titles(&self) -> (titles: Vec<String>)
        ensures
            titles.len() == self.options().len(),
            forall|i: int|
                0 <= i < titles.len() ==> (#[trigger] titles@[i])@ == padded(
                    self.options()[i].1@,
                    longest_title(self.options()),
                ),
    {
        let longest = self.max_option_len();
        let mut titles: Vec<String> = Vec::new();
        let mut i: usize = 0;
        while i < self.options.len()
            invariant
                i <= self.options.len(),
                titles.len() == i,
                longest == longest_title(self.options@),
                forall|k: int|
                    0 <= k < i ==> (#[trigger] titles@[k])@ == padded(
                        self.options@[k].1@,
                        longest as nat,
                    ),
            decreases self.options.len() - i,
        {
            let title = self.options[i].1;
            let len = title.unicode_len();
            proof {
                lemma_longest_title(self.options@, i as int);
            }
            let pad_len = longest - len;
            let mut text = String::new();
            text.push(' ');
            text.push(' ');
            text.append(title);
            let ghost head = text@;
            assert(head =~= Seq::new(2, |i: int| ' ') + title@);
            let mut k: usize = 0;
            while k < pad_len
                invariant
                    k <= pad_len,
                    text@ == head + Seq::new(k as nat, |i: int| ' '),
                decreases pad_len - k,
            {
                text.push(' ');
                k += 1;
                assert(text@ =~= head + Seq::new(k as nat, |i: int| ' '));
            }
            text.push(' ');
            text.push(' ');
            assert(text@ =~= padded(title@, longest as nat));
            titles.push(text);
            i += 1;
        }
        titles
    }

    /// The style of each option.
    pub fn option_styles(&self) -> (styles: Vec<Style>)
        ensures
            styles.len() == self.options().len(),
            forall|i: int|
                0 <= i < styles.len() ==> #[trigger] styles@[i] == option_style(
                    i == self.selected(),
                ),
    {
        let mut styles: Vec<Style> = Vec::new();
        let mut i: usize = 0;
        while i < self.options.len()
            invariant
                i <= self.options.len(),
                styles.len() == i,
                forall|k: int|
                    0 <= k < i ==> #[trigger] styles@[k] == option_style(
                        k == self.selected_option_index,
                    ),
            decreases self.options.len() - i,
        {
            let style = if i == self.selected_option_index {
                Style::default().fg(Color::Black).bg(Color::Blue)
            } else {
                Style::default().fg(Color::White).bg(Color::DarkGray)
            };
            styles.push(style);
            i += 1;
        }
        styles
    }
}

} // verus!
