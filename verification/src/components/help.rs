//! The help overlay: which key gives which command, group by group.
//!
//! A group lists the bindings of one scope that begin a key stroke, each as
//! the text of its key and the name of its command, in the order of a
//! dictionary by the text of the key.

use vstd::prelude::*;
use vstd::string::*;
use vstd::seq_lib::*;
use crate::action::{Action, ActionState};
use crate::components::multiline::cell;
use crate::config::bindings::PageKeyBindings;
use crate::config::key::{key_event_text, key_event_to_string};
use crate::keys::KeyEvent;
use crate::text::{lemma_lex_le_total, lemma_lex_le_transitive, lex_le, str_le};

verus! {

/// The rows of a group as values: the text of the key and the name of the
/// command of each.
pub open spec fn rows_view(rows: Seq<(String, String)>) -> Seq<(Seq<char>, Seq<char>)> {
    rows.map_values(|row: (String, String)| (row.0@, row.1@))
}

/// The rows that the entries `listing` of a table give, in their order: one
/// for each entry that begins a key stroke.
pub open spec fn help_rows(listing: Seq<(KeyEvent, Action)>) -> Seq<(Seq<char>, Seq<char>)>
    decreases listing.len(),
{
    if listing.len() == 0 {
        Seq::empty()
    } else {
        let before = help_rows(listing.drop_last());
        let (key, action) = listing.last();
        if action.state == ActionState::Start {
            before.push((key_event_text(key), action.command.name()))
        } else {
            before
        }
    }
}

/// Whether the rows `rows` stand in the order of a dictionary by their key.
pub open spec fn sorted_by_key(rows: Seq<(Seq<char>, Seq<char>)>) -> bool {
    forall|i: int, j: int|
        0 <= i < j < rows.len() ==> lex_le(#[trigger] rows[i].0, #[trigger] rows[j].0)
}

/// The length of the longest key of `rows`.
pub open spec fn longest_key(rows: Seq<(Seq<char>, Seq<char>)>) -> nat
    decreases rows.len(),
{
    if rows.len() == 0 {
        0
    } else {
        let before = longest_key(rows.drop_last());
        if rows.last().0.len() > before {
            rows.last().0.len()
        } else {
            before
        }
    }
}

/// The length of the longest command name of `rows`.
pub open spec fn longest_value(rows: Seq<(Seq<char>, Seq<char>)>) -> nat
    decreases rows.len(),
{
    if rows.len() == 0 {
        0
    } else {
        let before = longest_value(rows.drop_last());
        if rows.last().1.len() > before {
            rows.last().1.len()
        } else {
            before
        }
    }
}

/// The group of the rows `rows` under the name `name`, as a value.
pub struct GroupView {
    pub name: Seq<char>,
    pub rows: Seq<(Seq<char>, Seq<char>)>,
}

/// The groups `groups` as values.
pub open spec fn groups_view(groups: Seq<(String, Vec<(String, String)>)>) -> Seq<GroupView> {
    groups.map_values(
        |group: (String, Vec<(String, String)>)|
            GroupView { name: group.0@, rows: rows_view(group.1@) },
    )
}

/// The length of the longest key of the groups `groups`.
pub open spec fn longest_key_of(groups: Seq<GroupView>) -> nat
    decreases groups.len(),
{
    if groups.len() == 0 {
        0
    } else {
        let before = longest_key_of(groups.drop_last());
        if longest_key(groups.last().rows) > before {
            longest_key(groups.last().rows)
        } else {
            before
        }
    }
}

/// The length of the longest command name of the groups `groups`.
pub open spec fn longest_value_of(groups: Seq<GroupView>) -> nat
    decreases groups.len(),
{
    if groups.len() == 0 {
        0
    } else {
        let before = longest_value_of(groups.drop_last());
        if longest_value(groups.last().rows) > before {
            longest_value(groups.last().rows)
        } else {
            before
        }
    }
}

/// Whether the group `group` lists the bindings of the table `table` under
/// the name `name`: its rows are those that the entries of the table give,
/// each as often, in the order of a dictionary by their key.
pub open spec fn lists(group: GroupView, name: Seq<char>, table: PageKeyBindings) -> bool {
    &&& group.name == name
    &&& group.rows.to_multiset() == help_rows(table.listing()).to_multiset()
    &&& sorted_by_key(group.rows)
}

/// The help overlay.
#[derive(Debug)]
pub struct Help {
    pub keybinding_groups: Vec<(String, Vec<(String, String)>)>,
    pub column_spacing: u16,
    pub margin_vertical: u16,
    pub margin_horizantal: u16,
}

/// Puts the row `row` into the rows `rows` where the order of the keys
/// wants it, after the rows of the same key.
fn insert_row(rows: &mut Vec<(String, String)>, row: (String, String))
    requires
        sorted_by_key(rows_view(old(rows)@)),
    ensures
        sorted_by_key(rows_view(final(rows)@)),
        rows_view(final(rows)@).to_multiset() == rows_view(old(rows)@).to_multiset().insert(
            (row.0@, row.1@),
        ),
{
    let ghost before = rows_view(rows@);
    let ghost key = row.0@;
    let mut at: usize = 0;
    while at < rows.len() && str_le(rows[at].0.as_str(), row.0.as_str())
        invariant
            at <= rows.len(),
            rows_view(rows@) == before,
            key == row.0@,
            forall|j: int| 0 <= j < at ==> lex_le(#[trigger] before[j].0, key),
        decreases rows.len() - at,
    {
        assert(before[at as int].0 == rows@[at as int].0@);
        at += 1;
    }
    proof {
        if at < rows.len() {
            assert(before[at as int].0 == rows@[at as int].0@);
            lemma_lex_le_total(before[at as int].0, key);
        }
    }
    rows.insert(at, row);
    proof {
        let after = rows_view(rows@);
        assert(after =~= before.insert(at as int, (row.0@, row.1@)));
        to_multiset_insert(before, at as int, (row.0@, row.1@));
        assert forall|i: int, j: int| 0 <= i < j < after.len() implies lex_le(
            #[trigger] after[i].0,
            #[trigger] after[j].0,
        ) by {
            if j < at {
                assert(after[i] == before[i] && after[j] == before[j]);
            } else if j == at {
                assert(after[i] == before[i]);
            } else if i < at {
                assert(after[i] == before[i] && after[j] == before[j - 1]);
                if j - 1 == at {
                } else {
                    assert(lex_le(before[i].0, before[j - 1].0));
                }
            } else if i == at {
                assert(after[j] == before[j - 1]);
                if j - 1 > at {
                    assert(lex_le(before[at as int].0, before[j - 1].0));
                    lemma_lex_le_transitive(key, before[at as int].0, before[j - 1].0);
                }
            } else {
                assert(after[i] == before[i - 1] && after[j] == before[j - 1]);
            }
        }
    }
}

/// The rows of the bindings of the table `table`.
fn rows_of(table: &PageKeyBindings) -> (rows: Vec<(String, String)>)
    ensures
        rows_view(rows@).to_multiset() == help_rows(table.listing()).to_multiset(),
        sorted_by_key(rows_view(rows@)),
{
    let mut rows: Vec<(String, String)> = Vec::new();
    let n = table.len();
    let mut i: usize = 0;
    proof {
        assert(table.listing().take(0) =~= Seq::<(KeyEvent, Action)>::empty());
        assert(rows_view(rows@) =~= Seq::<(Seq<char>, Seq<char>)>::empty());
    }
    while i < n
        invariant
            i <= n,
            n == table.listing().len(),
            n == table@.dom().len(),
            rows_view(rows@).to_multiset() == help_rows(
                table.listing().take(i as int),
            ).to_multiset(),
            sorted_by_key(rows_view(rows@)),
        decreases n - i,
    {
        let (event, action) = table.entry(i);
        proof {
            assert(table.listing().take(i + 1).drop_last() =~= table.listing().take(i as int));
            assert(table.listing().take(i + 1).last() == table.listing()[i as int]);
        }
        if action.state == ActionState::Start {
            let row = (key_event_to_string(&event), action.command.string());
            proof {
                to_multiset_build(
                    help_rows(table.listing().take(i as int)),
                    (row.0@, row.1@),
                );
            }
            insert_row(&mut rows, row);
        }
        i += 1;
    }
    proof {
        assert(table.listing().take(n as int) =~= table.listing());
    }
    rows
}

/// `n` as a length on the screen.
fn to_cell(n: usize) -> (r: u16)
    ensures
        r == cell(n as int),
{
    if n > 0xffff {
        0xffff
    } else {
        n as u16
    }
}

/// `a + b` as a length on the screen.
fn cell_add(a: u16, b: u16) -> (r: u16)
    ensures
        r == cell(a + b),
{
    if a as u32 + b as u32 > 0xffff {
        0xffff
    } else {
        a + b
    }
}

impl Help {
    /// The groups as values.
    pub open spec fn groups(self) -> Seq<GroupView> {
        groups_view(self.keybinding_groups@)
    }

    /// The width of the column of keys: the length of the longest key.
    pub open spec fn key_width(self) -> u16 {
        cell(longest_key_of(self.groups()) as int)
    }

    /// The width of the column of commands: the length of the longest name.
    pub open spec fn value_width(self) -> u16 {
        cell(longest_value_of(self.groups()) as int)
    }

    /// The width of the overlay: both columns, the space between them, the
    /// margin on either side, and the border.
    pub open spec fn full_width(self) -> u16 {
        cell(
            cell(
                cell(cell(self.key_width() + self.value_width()) + self.column_spacing)
                    + cell(2 * self.margin_horizantal),
            ) + 2,
        )
    }

    /// The height of a group of `rows` rows: the rows, the margin above and
    /// below, the header and the border.
    pub open spec fn group_height(self, rows: nat) -> u16 {
        cell(cell(cell(cell(rows as int) + cell(2 * self.margin_vertical)) + 2) + 2)
    }

    /// The overlay for the tables `keybinding_groups`, each under its name.
    pub fn new(keybinding_groups: Vec<(String, PageKeyBindings)>) -> (help: Help)
        ensures
            help.column_spacing == 5,
            help.margin_vertical == 1,
            help.margin_horizantal == 2,
            help.groups().len() == keybinding_groups.len(),
            forall|i: int|
                0 <= i < keybinding_groups.len() ==> lists(
                    #[trigger] help.groups()[i],
                    keybinding_groups@[i].0@,
                    keybinding_groups@[i].1,
                ),
    {
        let mut groups: Vec<(String, Vec<(String, String)>)> = Vec::new();
        let mut i: usize = 0;
        while i < keybinding_groups.len()
            invariant
                i <= keybinding_groups.len(),
                groups.len() == i,
                forall|k: int|
                    0 <= k < i ==> lists(
                        #[trigger] groups_view(groups@)[k],
                        keybinding_groups@[k].0@,
                        keybinding_groups@[k].1,
                    ),
            decreases keybinding_groups.len() - i,
        {
            let ghost before = groups_view(groups@);
            let name = keybinding_groups[i].0.clone();
            let rows = rows_of(&keybinding_groups[i].1);
            groups.push((name, rows));
            proof {
                assert forall|k: int| 0 <= k <= i implies lists(
                    #[trigger] groups_view(groups@)[k],
                    keybinding_groups@[k].0@,
                    keybinding_groups@[k].1,
                ) by {
                    if k < i {
                        assert(groups_view(groups@)[k] == before[k]);
                    }
                }
            }
            i += 1;
        }
        Help {
            keybinding_groups: groups,
            column_spacing: 5,
            margin_vertical: 1,
            margin_horizantal: 2,
        }
    }

    /// The width of the column of keys.
    pub fn key_length(&self) -> (n: u16)
        ensures
            n == self.key_width(),
    {
        let mut longest: usize = 0;
        let mut g: usize = 0;
        let ghost groups = self.groups();
        assert(groups.take(0) =~= Seq::<GroupView>::empty());
        while g < self.keybinding_groups.len()
            invariant
                g <= self.keybinding_groups.len(),
                groups == self.groups(),
                longest == longest_key_of(groups.take(g as int)),
            decreases self.keybinding_groups.len() - g,
        {
            let rows = &self.keybinding_groups[g].1;
            let ghost view = rows_view(rows@);
            let mut in_group: usize = 0;
            let mut r: usize = 0;
            assert(view.take(0) =~= Seq::<(Seq<char>, Seq<char>)>::empty());
            while r < rows.len()
                invariant
                    r <= rows.len(),
                    view == rows_view(rows@),
                    in_group == longest_key(view.take(r as int)),
                decreases rows.len() - r,
            {
                proof {
                    assert(view.take(r + 1).drop_last() =~= view.take(r as int));
                    assert(view.take(r + 1).last() == (rows@[r as int].0@, rows@[r as int].1@));
                }
                let len = rows[r].0.as_str().unicode_len();
                if len > in_group {
                    in_group = len;
                }
                r += 1;
            }
            proof {
                assert(view.take(rows.len() as int) =~= view);
                assert(groups.take(g + 1).drop_last() =~= groups.take(g as int));
                assert(groups.take(g + 1).last().rows == view);
            }
            if in_group > longest {
                longest = in_group;
            }
            g += 1;
        }
        assert(groups.take(self.keybinding_groups.len() as int) =~= groups);
        to_cell(longest)
    }

    /// The width of the column of commands.
    pub fn val_length(&self) -> (n: u16)
        ensures
            n == self.value_width(),
    {
        let mut longest: usize = 0;
        let mut g: usize = 0;
        let ghost groups = self.groups();
        assert(groups.take(0) =~= Seq::<GroupView>::empty());
        while g < self.keybinding_groups.len()
            invariant
                g <= self.keybinding_groups.len(),
                groups == self.groups(),
                longest == longest_value_of(groups.take(g as int)),
            decreases self.keybinding_groups.len() - g,
        {
            let rows = &self.keybinding_groups[g].1;
            let ghost view = rows_view(rows@);
            let mut in_group: usize = 0;
            let mut r: usize = 0;
            assert(view.take(0) =~= Seq::<(Seq<char>, Seq<char>)>::empty());
            while r < rows.len()
                invariant
                    r <= rows.len(),
                    view == rows_view(rows@),
                    in_group == longest_value(view.take(r as int)),
                decreases rows.len() - r,
            {
                proof {
                    assert(view.take(r + 1).drop_last() =~= view.take(r as int));
                    assert(view.take(r + 1).last() == (rows@[r as int].0@, rows@[r as int].1@));
                }
                let len = rows[r].1.as_str().unicode_len();
                if len > in_group {
                    in_group = len;
                }
                r += 1;
            }
            proof {
                assert(view.take(rows.len() as int) =~= view);
                assert(groups.take(g + 1).drop_last() =~= groups.take(g as int));
                assert(groups.take(g + 1).last().rows == view);
            }
            if in_group > longest {
                longest = in_group;
            }
            g += 1;
        }
        assert(groups.take(self.keybinding_groups.len() as int) =~= groups);
        to_cell(longest)
    }

    /// The width of the overlay.
    pub fn width(&self) -> (w: u16)
        ensures
            w == self.full_width(),
    {
        let columns = cell_add(self.key_length(), self.val_length());
        let spaced = cell_add(columns, self.column_spacing);
        let margins = cell_add(self.margin_horizantal, self.margin_horizantal);
        cell_add(cell_add(spaced, margins), 2)
    }

    /// The height of each group.
    pub fn heights(&self) -> (h: Vec<u16>)
        ensures
            h.len() == self.groups().len(),
            forall|i: int|
                0 <= i < h.len() ==> #[trigger] h@[i] == self.group_height(
                    self.groups()[i].rows.len(),
                ),
    {
        let mut heights: Vec<u16> = Vec::new();
        let mut g: usize = 0;
        while g < self.keybinding_groups.len()
            invariant
                g <= self.keybinding_groups.len(),
                heights.len() == g,
                forall|i: int|
                    0 <= i < g ==> #[trigger] heights@[i] == self.group_height(
                        self.groups()[i].rows.len(),
                    ),
            decreases self.keybinding_groups.len() - g,
        {
            let len = to_cell(self.keybinding_groups[g].1.len());
            let margins = cell_add(self.margin_vertical, self.margin_vertical);
            let height = cell_add(cell_add(cell_add(len, margins), 2), 2);
            assert(self.groups()[g as int].rows.len() == self.keybinding_groups@[g as int].1@.len(
            ));
            heights.push(height);
            g += 1;
        }
        heights
    }
}

} // verus!
