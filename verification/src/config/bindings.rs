//! Binding tables: which command, in which phase, a key stroke gives.
//!
//! A table is built once from two lists of bindings. A click binding gives
//! its command when the key goes down. A hold binding gives its command
//! three times: when the key goes down, each time the terminal repeats it,
//! and when it is released. A later binding of a key stroke replaces an
//! earlier one, and hold bindings are entered after click bindings.
//!
//! A key stroke is looked up in the table of the active page first and in
//! the global table after that.

use vstd::prelude::*;
use vstd::string::*;
use crate::action::{Action, ActionState, Command};
use crate::config::key::{key_event_of, parse_key_event};
use crate::keys::{
    lemma_normalized_idempotent, lemma_normalized_kind, KeyEvent, KeyEventKind,
};
use crate::pages::PageId;

verus! {

/// The table that the entries `entries` make, a later entry replacing an
/// earlier one of the same key.
pub open spec fn table_of(entries: Seq<(KeyEvent, Action)>) -> Map<KeyEvent, Action>
    decreases entries.len(),
{
    if entries.len() == 0 {
        Map::empty()
    } else {
        table_of(entries.drop_last()).insert(entries.last().0, entries.last().1)
    }
}

/// The table `table` with the click bindings `pairs` entered in order.
pub open spec fn with_clicks(table: Map<KeyEvent, Action>, pairs: Seq<(KeyEvent, Command)>) -> Map<
    KeyEvent,
    Action,
>
    decreases pairs.len(),
{
    if pairs.len() == 0 {
        table
    } else {
        let (key, command) = pairs.last();
        with_clicks(table, pairs.drop_last()).insert(
            key.normalized(),
            Action { command, state: ActionState::Start },
        )
    }
}

/// The table `table` with the three entries of one hold binding.
pub open spec fn with_hold(table: Map<KeyEvent, Action>, key: KeyEvent, command: Command) -> Map<
    KeyEvent,
    Action,
> {
    table.insert(key.normalized(), Action { command, state: ActionState::Start }).insert(
        (KeyEvent { kind: KeyEventKind::Release, ..key }).normalized(),
        Action { command, state: ActionState::End },
    ).insert(
        (KeyEvent { kind: KeyEventKind::Repeat, ..key }).normalized(),
        Action { command, state: ActionState::Repeat },
    )
}

/// The table `table` with the hold bindings `pairs` entered in order.
pub open spec fn with_holds(table: Map<KeyEvent, Action>, pairs: Seq<(KeyEvent, Command)>) -> Map<
    KeyEvent,
    Action,
>
    decreases pairs.len(),
{
    if pairs.len() == 0 {
        table
    } else {
        let (key, command) = pairs.last();
        with_hold(with_holds(table, pairs.drop_last()), key, command)
    }
}

/// A hold binding of the press of a key gives its command in all three
/// phases of the key stroke: `Start` on the press, `Repeat` on the repeat
/// and `End` on the release.
pub proof fn lemma_hold_phases(table: Map<KeyEvent, Action>, key: KeyEvent, command: Command)
    requires
        key.kind == KeyEventKind::Press,
    ensures
        ({
            let held = with_hold(table, key, command);
            let press = key.normalized();
            let repeat = (KeyEvent { kind: KeyEventKind::Repeat, ..key }).normalized();
            let release = (KeyEvent { kind: KeyEventKind::Release, ..key }).normalized();
            &&& held.contains_key(press) && held[press] == (Action {
                command,
                state: ActionState::Start,
            })
            &&& held.contains_key(repeat) && held[repeat] == (Action {
                command,
                state: ActionState::Repeat,
            })
            &&& held.contains_key(release) && held[release] == (Action {
                command,
                state: ActionState::End,
            })
            &&& forall|other: KeyEvent|
                other != press && other != repeat && other != release ==> (held.contains_key(other)
                    == table.contains_key(other) && (table.contains_key(other) ==> held[other]
                    == table[other]))
        }),
{
    lemma_normalized_kind(key, KeyEventKind::Repeat);
    lemma_normalized_kind(key, KeyEventKind::Release);
}

/// A click binding gives its command in the phase `Start`, and binds no
/// other key stroke.
pub proof fn lemma_click_phase(
    table: Map<KeyEvent, Action>,
    pairs: Seq<(KeyEvent, Command)>,
    key: KeyEvent,
    command: Command,
)
    ensures
        ({
            let clicked = with_clicks(table, pairs.push((key, command)));
            &&& clicked.contains_key(key.normalized())
            &&& clicked[key.normalized()] == (Action { command, state: ActionState::Start })
            &&& forall|other: KeyEvent|
                other != key.normalized() ==> clicked.contains_key(other) == with_clicks(
                    table,
                    pairs,
                ).contains_key(other)
        }),
{
    assert(pairs.push((key, command)).drop_last() == pairs);
}

/// The table that click and hold bindings make together.
pub open spec fn merged(click: Seq<(KeyEvent, Command)>, hold: Seq<(KeyEvent, Command)>) -> Map<
    KeyEvent,
    Action,
> {
    with_holds(with_clicks(Map::empty(), click), hold)
}

/// The bindings of one scope: at most one action for a key stroke.
pub struct PageKeyBindings {
    entries: Vec<(KeyEvent, Action)>,
}

impl View for PageKeyBindings {
    type V = Map<KeyEvent, Action>;

    /// The table: the action of each bound key stroke, by the normal form
    /// of the key stroke.
    closed spec fn view(&self) -> Map<KeyEvent, Action> {
        table_of(self.entries@)
    }
}

/// Whether no key occurs twice in `entries` and every key is in normal form.
pub open spec fn distinct_keys(entries: Seq<(KeyEvent, Action)>) -> bool {
    &&& forall|i: int|
        0 <= i < entries.len() ==> (#[trigger] entries[i]).0.normalized() == entries[i].0
    &&& forall|i: int, j: int|
        0 <= i < j < entries.len() ==> (#[trigger] entries[i]).0 != (#[trigger] entries[j]).0
}

proof fn lemma_table_of(entries: Seq<(KeyEvent, Action)>)
    requires
        distinct_keys(entries),
    ensures
        forall|i: int|
            0 <= i < entries.len() ==> table_of(entries).contains_key((#[trigger] entries[i]).0)
                && table_of(entries)[entries[i].0] == entries[i].1,
        forall|k: KeyEvent| #[trigger]
            table_of(entries).contains_key(k) ==> exists|i: int|
                0 <= i < entries.len() && (#[trigger] entries[i]).0 == k,
        table_of(entries).dom().finite(),
        table_of(entries).dom().len() == entries.len(),
    decreases entries.len(),
{
    if entries.len() > 0 {
        let init = entries.drop_last();
        assert(distinct_keys(init)) by {
            assert forall|i: int| 0 <= i < init.len() implies (#[trigger] init[i]).0.normalized()
                == init[i].0 by {
                assert(init[i] == entries[i]);
            }
            assert forall|i: int, j: int| 0 <= i < j < init.len() implies (#[trigger] init[i]).0
                != (#[trigger] init[j]).0 by {
                assert(init[i] == entries[i]);
                assert(init[j] == entries[j]);
            }
        }
        lemma_table_of(init);
        let last = entries.last();
        assert(!table_of(init).contains_key(last.0)) by {
            if table_of(init).contains_key(last.0) {
                let i = choose|i: int| 0 <= i < init.len() && (#[trigger] init[i]).0 == last.0;
                assert(init[i] == entries[i]);
                assert(entries[entries.len() - 1] == last);
            }
        }
        assert forall|i: int| 0 <= i < entries.len() implies table_of(entries).contains_key(
            (#[trigger] entries[i]).0,
        ) && table_of(entries)[entries[i].0] == entries[i].1 by {
            if i < init.len() {
                assert(init[i] == entries[i]);
            }
        }
        assert forall|k: KeyEvent| #[trigger] table_of(entries).contains_key(k) implies exists|
            i: int,
        |
            0 <= i < entries.len() && (#[trigger] entries[i]).0 == k by {
            if k == last.0 {
                assert(entries[entries.len() - 1].0 == k);
            } else {
                let i = choose|i: int| 0 <= i < init.len() && (#[trigger] init[i]).0 == k;
                assert(init[i] == entries[i]);
            }
        }
    }
}

impl PageKeyBindings {
    /// Holds of every table: no key stroke is entered twice, and each is
    /// entered in its normal form.
    #[verifier::type_invariant]
    pub closed spec fn well_formed(self) -> bool {
        distinct_keys(self.entries@)
    }

    /// The empty table.
    pub fn new() -> (table: PageKeyBindings)
        ensures
            table@ == Map::<KeyEvent, Action>::empty(),
    {
        PageKeyBindings { entries: Vec::new() }
    }

    /// The number of bound key strokes.
    pub fn len(&self) -> (n: usize)
        ensures
            self@.dom().finite(),
            n == self@.dom().len(),
            n == self.listing().len(),
    {
        proof {
            use_type_invariant(self);
            lemma_table_of(self.entries@);
        }
        self.entries.len()
    }

    /// The place of the key stroke `key` among the entries, if it is bound.
    fn position(&self, key: KeyEvent) -> (at: Option<usize>)
        requires
            key.normalized() == key,
        ensures
            match at {
                Some(i) => i < self.entries.len() && self.entries[i as int].0 == key,
                None => forall|i: int| 0 <= i < self.entries.len() ==> self.entries[i].0 != key,
            },
    {
        let mut i: usize = 0;
        while i < self.entries.len()
            invariant
                i <= self.entries.len(),
                forall|j: int| 0 <= j < i ==> self.entries[j].0 != key,
            decreases self.entries.len() - i,
        {
            if self.entries[i].0 == key {
                return Some(i);
            }
            i += 1;
        }
        None
    }

    /// The action bound to the key stroke `key`, if there is one.
    pub fn get(&self, key: &KeyEvent) -> (action: Option<&Action>)
        ensures
            match action {
                Some(a) => self@.contains_key(key.normalized()) && *a == self@[key.normalized()],
                None => !self@.contains_key(key.normalized()),
            },
    {
        proof {
            use_type_invariant(self);
            lemma_table_of(self.entries@);
            lemma_normalized_idempotent(*key);
        }
        match self.position(key.normalize_case()) {
            Some(i) => Some(&self.entries[i].1),
            None => None,
        }
    }

    /// Whether the key stroke `key` is bound.
    pub fn contains_key(&self, key: &KeyEvent) -> (r: bool)
        ensures
            r == self@.contains_key(key.normalized()),
    {
        self.get(key).is_some()
    }

    /// Binds the key stroke `key` to `action`, in place of what it was bound
    /// to before.
    pub fn insert(&mut self, key: KeyEvent, action: Action)
        ensures
            final(self)@ == old(self)@.insert(key.normalized(), action),
    {
        proof {
            use_type_invariant(&*self);
            lemma_table_of(self.entries@);
            lemma_normalized_idempotent(key);
        }
        let key = key.normalize_case();
        let ghost before = self.entries@;
        let found = self.position(key);
        let mut entries: Vec<(KeyEvent, Action)> = Vec::new();
        core::mem::swap(&mut self.entries, &mut entries);
        match found {
            Some(i) => {
                entries[i] = (key, action);
                proof {
                    let after = entries@;
                    assert(distinct_keys(after)) by {
                        assert forall|a: int, b: int| 0 <= a < b < after.len() implies (
                        #[trigger] after[a]).0 != (#[trigger] after[b]).0 by {
                            assert(after[a].0 == before[a].0);
                            assert(after[b].0 == before[b].0);
                        }
                        assert forall|a: int| 0 <= a < after.len() implies (
                        #[trigger] after[a]).0.normalized() == after[a].0 by {
                            assert(after[a].0 == before[a].0);
                        }
                    }
                    lemma_table_of(after);
                    assert(table_of(after) =~= table_of(before).insert(key, action)) by {
                        assert forall|k: KeyEvent|
                            table_of(before).insert(key, action).contains_key(
                                k,
                            ) implies #[trigger] table_of(after).contains_key(k) && table_of(
                            after,
                        )[k] == table_of(before).insert(key, action)[k] by {
                            if k == key {
                                assert(after[i as int].0 == k);
                            } else {
                                let j = choose|j: int|
                                    0 <= j < before.len() && (#[trigger] before[j]).0 == k;
                                assert(after[j] == before[j]);
                            }
                        }
                        assert forall|k: KeyEvent| #[trigger]
                            table_of(after).contains_key(k) implies table_of(before).insert(
                            key,
                            action,
                        ).contains_key(k) by {
                            let j = choose|j: int|
                                0 <= j < after.len() && (#[trigger] after[j]).0 == k;
                            assert(after[j].0 == before[j].0);
                        }
                    }
                }
            },
            None => {
                entries.push((key, action));
                proof {
                    let after = entries@;
                    assert(after.drop_last() == before);
                    assert(distinct_keys(after)) by {
                        assert forall|a: int, b: int| 0 <= a < b < after.len() implies (
                        #[trigger] after[a]).0 != (#[trigger] after[b]).0 by {
                            assert(after[a] == before[a]);
                        }
                    }
                }
            },
        }
        self.entries = entries;
    }

    /// The entries of the table, in the order in which the key strokes were
    /// first bound.
    pub closed spec fn listing(&self) -> Seq<(KeyEvent, Action)> {
        self.entries@
    }

    /// The `i`-th entry of the table, in the order in which the key strokes
    /// were first bound.
    pub fn entry(&self, i: usize) -> (e: (KeyEvent, &Action))
        requires
            i < self@.dom().len(),
        ensures
            self@.contains_key(e.0),
            self@[e.0] == *e.1,
            e.0 == self.key_at(i as int),
            self.listing().len() == self@.dom().len(),
            (e.0, *e.1) == self.listing()[i as int],
    {
        proof {
            use_type_invariant(self);
            lemma_table_of(self.entries@);
        }
        (self.entries[i].0, &self.entries[i].1)
    }

    /// The key stroke of the `i`-th entry.
    pub open spec fn key_at(&self, i: int) -> KeyEvent {
        self.listing()[i].0
    }

    /// Every bound key stroke is the key of exactly one entry.
    pub proof fn lemma_entries(&self)
        requires
            self.well_formed(),
        ensures
            self@.dom().finite(),
            forall|i: int|
                0 <= i < self@.dom().len() ==> self@.contains_key(#[trigger] self.key_at(i)),
            forall|i: int, j: int|
                0 <= i < j < self@.dom().len() ==> #[trigger] self.key_at(i)
                    != #[trigger] self.key_at(j),
            forall|k: KeyEvent| #[trigger]
                self@.contains_key(k) ==> exists|i: int|
                    0 <= i < self@.dom().len() && #[trigger] self.key_at(i) == k,
            forall|k: KeyEvent| #[trigger] self@.contains_key(k) ==> k.normalized() == k,
            self.listing().len() == self@.dom().len(),
            forall|i: int|
                0 <= i < self.listing().len() ==> self@.contains_key(
                    (#[trigger] self.listing()[i]).0,
                ) && self@[self.listing()[i].0] == self.listing()[i].1,
    {
        lemma_table_of(self.entries@);
        assert forall|k: KeyEvent| #[trigger] self@.contains_key(k) implies exists|i: int|
            0 <= i < self@.dom().len() && #[trigger] self.key_at(i) == k by {
            let i = choose|i: int|
                0 <= i < self.entries@.len() && (#[trigger] self.entries@[i]).0 == k;
            assert(self.key_at(i) == k);
        }
        assert forall|k: KeyEvent| #[trigger] self@.contains_key(k) implies k.normalized() == k by {
            let i = choose|i: int|
                0 <= i < self.entries@.len() && (#[trigger] self.entries@[i]).0 == k;
        }
    }
}

impl Clone for PageKeyBindings {
    fn clone(&self) -> (copy: PageKeyBindings)
        ensures
            copy@ == self@,
            copy.listing() == self.listing(),
    {
        proof {
            use_type_invariant(self);
        }
        let mut entries: Vec<(KeyEvent, Action)> = Vec::new();
        let mut i: usize = 0;
        while i < self.entries.len()
            invariant
                i <= self.entries.len(),
                entries@ == self.entries@.take(i as int),
            decreases self.entries.len() - i,
        {
            entries.push((self.entries[i].0, self.entries[i].1.clone()));
            i += 1;
        }
        assert(self.entries@.take(self.entries.len() as int) == self.entries@);
        PageKeyBindings { entries }
    }
}

impl PageKeyBindings {
    /// Enters each binding of `defaults` whose key stroke is not bound yet.
    pub fn fill_from(&mut self, defaults: &PageKeyBindings)
        ensures
            final(self)@ == defaults@.union_prefer_right(old(self)@),
    {
        proof {
            use_type_invariant(defaults);
            lemma_table_of(defaults.entries@);
        }
        let ghost user = self@;
        let mut i: usize = 0;
        assert(defaults.entries@.take(0) == Seq::<(KeyEvent, Action)>::empty());
        assert(self@ =~= table_of(defaults.entries@.take(0)).union_prefer_right(user));
        while i < defaults.entries.len()
            invariant
                i <= defaults.entries.len(),
                distinct_keys(defaults.entries@),
                self@ == table_of(defaults.entries@.take(i as int)).union_prefer_right(user),
            decreases defaults.entries.len() - i,
        {
            let ghost done = defaults.entries@.take(i as int);
            let ghost next = defaults.entries@.take(i + 1);
            let key = defaults.entries[i].0;
            proof {
                assert(next.drop_last() == done);
                assert(next.last() == defaults.entries@[i as int]);
                assert(distinct_keys(done)) by {
                    assert forall|a: int| 0 <= a < done.len() implies (
                    #[trigger] done[a]).0.normalized() == done[a].0 by {
                        assert(done[a] == defaults.entries@[a]);
                    }
                    assert forall|a: int, b: int| 0 <= a < b < done.len() implies (
                    #[trigger] done[a]).0 != (#[trigger] done[b]).0 by {
                        assert(done[a] == defaults.entries@[a]);
                        assert(done[b] == defaults.entries@[b]);
                    }
                }
                lemma_table_of(done);
                assert(!table_of(done).contains_key(key)) by {
                    if table_of(done).contains_key(key) {
                        let j = choose|j: int| 0 <= j < done.len() && (#[trigger] done[j]).0 == key;
                        assert(done[j] == defaults.entries@[j]);
                    }
                }
                assert(key.normalized() == key);
            }
            if !self.contains_key(&key) {
                let action = defaults.entries[i].1.clone();
                self.insert(key, action);
                assert(self@ =~= table_of(next).union_prefer_right(user));
            } else {
                assert(self@ =~= table_of(next).union_prefer_right(user));
            }
            i += 1;
        }
        assert(defaults.entries@.take(i as int) == defaults.entries@);
    }
}

/// The bindings of one scope as the configuration gives them: each a key
/// descriptor with its command.
pub struct RawPageKeyBindings {
    pub click: Vec<(String, Command)>,
    pub hold: Vec<(String, Command)>,
}

/// The message for a command that is none of the page `page`.
pub open spec fn foreign_command_message(page: PageId, command: Command) -> Seq<char> {
    "Unable to parse `"@ + command.name() + "` as a command of page "@ + page.name()
}

/// Whether `command` may stand in the table of the scope `scope`: in the
/// global table any command may, in the table of a page only a command of
/// that page.
pub open spec fn in_scope(scope: Option<PageId>, command: Command) -> bool {
    match scope {
        Some(page) => command.scope() == Some(page),
        None => true,
    }
}

/// What one raw binding stands for in the scope `scope`: its key stroke and
/// command, or the message that says what is wrong with it. The command is
/// looked at first.
pub open spec fn pair_of(entry: (String, Command), scope: Option<PageId>) -> Result<
    (KeyEvent, Command),
    Seq<char>,
> {
    if !in_scope(scope, entry.1) {
        Err(foreign_command_message(scope->0, entry.1))
    } else {
        match key_event_of(entry.0@) {
            Err(message) => Err(message),
            Ok(key) => Ok((key, entry.1)),
        }
    }
}

/// The key strokes and commands that the raw bindings `raw` stand for in
/// the scope `scope`, or the message for the first among them that stands
/// for none.
pub open spec fn pairs_of(raw: Seq<(String, Command)>, scope: Option<PageId>) -> Result<
    Seq<(KeyEvent, Command)>,
    Seq<char>,
>
    decreases raw.len(),
{
    if raw.len() == 0 {
        Ok(Seq::empty())
    } else {
        match pairs_of(raw.drop_last(), scope) {
            Err(message) => Err(message),
            Ok(init) => match pair_of(raw.last(), scope) {
                Err(message) => Err(message),
                Ok(pair) => Ok(init.push(pair)),
            },
        }
    }
}

/// The table that the raw bindings `raw` make in the scope `scope`, or the
/// message for the first binding that is refused, click bindings first.
pub open spec fn bindings_of(raw: RawPageKeyBindings, scope: Option<PageId>) -> Result<
    Map<KeyEvent, Action>,
    Seq<char>,
> {
    match pairs_of(raw.click@, scope) {
        Err(message) => Err(message),
        Ok(click) => match pairs_of(raw.hold@, scope) {
            Err(message) => Err(message),
            Ok(hold) => Ok(merged(click, hold)),
        },
    }
}

/// Whether the result `r` of building a table is the one that `expected`
/// describes.
pub open spec fn built_as(
    r: Result<PageKeyBindings, String>,
    expected: Result<Map<KeyEvent, Action>, Seq<char>>,
) -> bool {
    match r {
        Ok(table) => expected == Ok::<Map<KeyEvent, Action>, Seq<char>>(table@),
        Err(message) => expected == Err::<Map<KeyEvent, Action>, Seq<char>>(message@),
    }
}

/// Reads each binding of one kind: checks that its command may stand in the
/// scope, and reads its key descriptor.
pub fn parse_binding_pairs(raw: &Vec<(String, Command)>, scope: Option<PageId>) -> (r: Result<
    Vec<(KeyEvent, Command)>,
    String,
>)
    ensures
        match r {
            Ok(pairs) => pairs_of(raw@, scope) == Ok::<Seq<(KeyEvent, Command)>, Seq<char>>(
                pairs@,
            ),
            Err(message) => pairs_of(raw@, scope) == Err::<Seq<(KeyEvent, Command)>, Seq<char>>(
                message@,
            ),
        },
{
    let mut pairs: Vec<(KeyEvent, Command)> = Vec::new();
    let mut i: usize = 0;
    assert(raw@.take(0) == Seq::<(String, Command)>::empty());
    while i < raw.len()
        invariant
            i <= raw.len(),
            pairs_of(raw@.take(i as int), scope) == Ok::<Seq<(KeyEvent, Command)>, Seq<char>>(
                pairs@,
            ),
        decreases raw.len() - i,
    {
        proof {
            assert(raw@.take(i + 1).drop_last() == raw@.take(i as int));
            assert(raw@.take(i + 1).last() == raw@[i as int]);
        }
        if let Some(page) = scope {
            if raw[i].1.page() != Some(page) {
                proof {
                    lemma_pairs_of_fails(raw@, scope, i + 1);
                }
                let name = raw[i].1.string();
                let page_name = page.string();
                return Err(
                    String::from_str("Unable to parse `").concat(name.as_str()).concat(
                        "` as a command of page ",
                    ).concat(page_name.as_str()),
                );
            }
        }
        match parse_key_event(raw[i].0.as_str()) {
            Ok(key) => {
                pairs.push((key, raw[i].1.clone()));
            },
            Err(message) => {
                proof {
                    lemma_pairs_of_fails(raw@, scope, i + 1);
                }
                return Err(message);
            },
        }
        i += 1;
    }
    assert(raw@.take(raw.len() as int) == raw@);
    Ok(pairs)
}

/// Once a binding has been refused, the bindings after it change nothing.
proof fn lemma_pairs_of_fails(raw: Seq<(String, Command)>, scope: Option<PageId>, n: int)
    requires
        0 <= n <= raw.len(),
        pairs_of(raw.take(n), scope) is Err,
    ensures
        pairs_of(raw, scope) == pairs_of(raw.take(n), scope),
    decreases raw.len(),
{
    if n < raw.len() {
        assert(raw.drop_last().take(n) == raw.take(n));
        lemma_pairs_of_fails(raw.drop_last(), scope, n);
    } else {
        assert(raw.take(n) == raw);
    }
}

/// Builds the table of click and hold bindings.
pub fn merge_keybinding_maps(
    click: &Vec<(KeyEvent, Command)>,
    hold: &Vec<(KeyEvent, Command)>,
) -> (table: PageKeyBindings)
    ensures
        table@ == merged(click@, hold@),
{
    let mut table = PageKeyBindings::new();
    let mut i: usize = 0;
    assert(click@.take(0) == Seq::<(KeyEvent, Command)>::empty());
    while i < click.len()
        invariant
            i <= click.len(),
            table@ == with_clicks(Map::empty(), click@.take(i as int)),
        decreases click.len() - i,
    {
        proof {
            assert(click@.take(i + 1).drop_last() == click@.take(i as int));
            assert(click@.take(i + 1).last() == click@[i as int]);
        }
        table.insert(
            click[i].0,
            Action { command: click[i].1.clone(), state: ActionState::default() },
        );
        i += 1;
    }
    assert(click@.take(click.len() as int) == click@);
    let mut j: usize = 0;
    assert(hold@.take(0) == Seq::<(KeyEvent, Command)>::empty());
    while j < hold.len()
        invariant
            j <= hold.len(),
            table@ == with_holds(with_clicks(Map::empty(), click@), hold@.take(j as int)),
        decreases hold.len() - j,
    {
        proof {
            assert(hold@.take(j + 1).drop_last() == hold@.take(j as int));
            assert(hold@.take(j + 1).last() == hold@[j as int]);
        }
        let key_event = hold[j].0;
        table.insert(key_event, Action { command: hold[j].1.clone(), state: ActionState::Start });
        let key_event = key_event.with_kind(KeyEventKind::Release);
        table.insert(key_event, Action { command: hold[j].1.clone(), state: ActionState::End });
        let key_event = key_event.with_kind(KeyEventKind::Repeat);
        table.insert(key_event, Action { command: hold[j].1.clone(), state: ActionState::Repeat });
        j += 1;
    }
    assert(hold@.take(hold.len() as int) == hold@);
    table
}

/// Builds the table of one scope.
fn parse_scope_keybindings(raw: &RawPageKeyBindings, scope: Option<PageId>) -> (r: Result<
    PageKeyBindings,
    String,
>)
    ensures
        built_as(r, bindings_of(*raw, scope)),
{
    let click = match parse_binding_pairs(&raw.click, scope) {
        Ok(pairs) => pairs,
        Err(message) => {
            return Err(message);
        },
    };
    let hold = match parse_binding_pairs(&raw.hold, scope) {
        Ok(pairs) => pairs,
        Err(message) => {
            return Err(message);
        },
    };
    Ok(merge_keybinding_maps(&click, &hold))
}

/// Builds the table of the global scope, in which any command may stand.
///
/// Fails with the message for the first key descriptor that stands for no
/// key stroke.
pub fn parse_global_keybindings(raw: &RawPageKeyBindings) -> (r: Result<PageKeyBindings, String>)
    ensures
        built_as(r, bindings_of(*raw, None)),
{
    parse_scope_keybindings(raw, None)
}

/// Builds the table of the page `page`, in which only the commands of that
/// page may stand.
///
/// Fails with the message for the first binding whose command is none of
/// the page or whose key descriptor stands for no key stroke.
pub fn parse_page_keybindings(page: PageId, raw: &RawPageKeyBindings) -> (r: Result<
    PageKeyBindings,
    String,
>)
    ensures
        built_as(r, bindings_of(*raw, Some(page))),
{
    parse_scope_keybindings(raw, Some(page))
}

/// The binding tables of the program: one for all pages, and one for each
/// page that has bindings of its own.
pub struct KeyBindings {
    pub global: PageKeyBindings,
    pub home: Option<PageKeyBindings>,
    pub game: Option<PageKeyBindings>,
    pub card: Option<PageKeyBindings>,
}

impl KeyBindings {
    /// The table of the page `page`, if it has one.
    pub open spec fn page_table(self, page: PageId) -> Option<Map<KeyEvent, Action>> {
        let table = match page {
            PageId::Home => self.home,
            PageId::Game => self.game,
            PageId::Card => self.card,
        };
        match table {
            Some(t) => Some(t@),
            None => None,
        }
    }

    /// What the key stroke `key` gives while `page` is the active page: the
    /// action that the page's table binds it to; where the page has no table
    /// or its table does not bind the key stroke, the action that the global
    /// table binds it to; where that one does not bind it either, nothing.
    pub open spec fn resolved(self, page: PageId, key: KeyEvent) -> Option<Action> {
        let k = key.normalized();
        if self.page_table(page) is Some && self.page_table(page)->0.contains_key(k) {
            Some(self.page_table(page)->0[k])
        } else if self.global@.contains_key(k) {
            Some(self.global@[k])
        } else {
            None
        }
    }

    /// Tables without any binding.
    pub fn new() -> (b: KeyBindings)
        ensures
            b.global@ == Map::<KeyEvent, Action>::empty(),
            b.home is None,
            b.game is None,
            b.card is None,
    {
        KeyBindings { global: PageKeyBindings::new(), home: None, game: None, card: None }
    }

    /// The table of the page `page`, if it has one.
    pub fn page(&self, page: PageId) -> (t: Option<&PageKeyBindings>)
        ensures
            match t {
                Some(table) => self.page_table(page) == Some(table@),
                None => self.page_table(page) is None,
            },
    {
        match page {
            PageId::Home => self.home.as_ref(),
            PageId::Game => self.game.as_ref(),
            PageId::Card => self.card.as_ref(),
        }
    }

    /// Gives the page `page` the table `table`, in place of the one it had.
    pub fn set_page(&mut self, page: PageId, table: PageKeyBindings)
        ensures
            final(self).global == old(self).global,
            final(self).page_table(page) == Some(table@),
            forall|other: PageId|
                other != page ==> final(self).page_table(other) == old(self).page_table(other),
    {
        match page {
            PageId::Home => {
                self.home = Some(table);
            },
            PageId::Game => {
                self.game = Some(table);
            },
            PageId::Card => {
                self.card = Some(table);
            },
        }
    }

    /// What the key stroke `key` gives while `page` is the active page.
    pub fn resolve(&self, page: PageId, key: &KeyEvent) -> (action: Option<&Action>)
        ensures
            match action {
                Some(a) => self.resolved(page, *key) == Some(*a),
                None => self.resolved(page, *key) is None,
            },
    {
        if let Some(table) = self.page(page) {
            if let Some(action) = table.get(key) {
                return Some(action);
            }
        }
        self.global.get(key)
    }
}

/// What a page binds wins over what the global table binds; what a page does
/// not bind, the global table decides; and what neither binds gives
/// nothing.
pub proof fn lemma_page_wins(bindings: KeyBindings, page: PageId, key: KeyEvent)
    ensures
        ({
            let k = key.normalized();
            let own = bindings.page_table(page);
            &&& own is Some && own->0.contains_key(k) ==> bindings.resolved(page, key) == Some(
                own->0[k],
            )
            &&& !(own is Some && own->0.contains_key(k)) && bindings.global@.contains_key(k)
                ==> bindings.resolved(page, key) == Some(bindings.global@[k])
            &&& !(own is Some && own->0.contains_key(k)) && !bindings.global@.contains_key(k)
                ==> bindings.resolved(page, key) is None
            &&& bindings.resolved(page, key) == bindings.resolved(page, key.normalized())
        }),
{
    lemma_normalized_idempotent(key);
}

/// The table of a page, as a map: that of `table` if there is one.
pub open spec fn table_view(table: Option<PageKeyBindings>) -> Option<Map<KeyEvent, Action>> {
    match table {
        Some(t) => Some(t@),
        None => None,
    }
}

/// The table of a page once the default bindings `defaults` have been
/// entered where the page does not bind the key stroke itself. A page
/// without a table gets one where there are defaults for it.
pub open spec fn filled(
    table: Option<Map<KeyEvent, Action>>,
    defaults: Option<Map<KeyEvent, Action>>,
) -> Option<Map<KeyEvent, Action>> {
    match defaults {
        Some(d) => match table {
            Some(t) => Some(d.union_prefer_right(t)),
            None => Some(d),
        },
        None => table,
    }
}

fn fill_page(table: Option<PageKeyBindings>, defaults: &Option<PageKeyBindings>) -> (r: Option<
    PageKeyBindings,
>)
    ensures
        table_view(r) == filled(table_view(table), table_view(*defaults)),
{
    match defaults {
        Some(d) => {
            let mut t = match table {
                Some(t) => t,
                None => PageKeyBindings::new(),
            };
            t.fill_from(d);
            assert(d@.union_prefer_right(Map::<KeyEvent, Action>::empty()) =~= d@);
            Some(t)
        },
        None => table,
    }
}

/// The tables of the pages `pages`, a later table of a page replacing an
/// earlier one, or the message for the first binding that is refused.
pub open spec fn page_tables_of(pages: Seq<(PageId, RawPageKeyBindings)>) -> Result<
    Map<PageId, Map<KeyEvent, Action>>,
    Seq<char>,
>
    decreases pages.len(),
{
    if pages.len() == 0 {
        Ok(Map::empty())
    } else {
        match page_tables_of(pages.drop_last()) {
            Err(message) => Err(message),
            Ok(tables) => match bindings_of(pages.last().1, Some(pages.last().0)) {
                Err(message) => Err(message),
                Ok(table) => Ok(tables.insert(pages.last().0, table)),
            },
        }
    }
}

/// Once a page has been refused, the pages after it change nothing.
proof fn lemma_page_tables_of_fails(pages: Seq<(PageId, RawPageKeyBindings)>, n: int)
    requires
        0 <= n <= pages.len(),
        page_tables_of(pages.take(n)) is Err,
    ensures
        page_tables_of(pages) == page_tables_of(pages.take(n)),
    decreases pages.len(),
{
    if n < pages.len() {
        assert(pages.drop_last().take(n) == pages.take(n));
        lemma_page_tables_of_fails(pages.drop_last(), n);
    } else {
        assert(pages.take(n) == pages);
    }
}

impl KeyBindings {
    /// The tables of the pages, by page.
    pub open spec fn page_tables(self) -> Map<PageId, Map<KeyEvent, Action>> {
        Map::new(
            |page: PageId| self.page_table(page) is Some,
            |page: PageId| self.page_table(page)->0,
        )
    }

    /// Builds the tables from the raw bindings of the global scope and of
    /// the pages.
    ///
    /// Fails with the message for the first binding that is refused, the
    /// global scope first and then the pages in their order.
    pub fn from_raw(global: &RawPageKeyBindings, pages: &Vec<(PageId, RawPageKeyBindings)>) -> (r:
        Result<KeyBindings, String>)
        ensures
            match r {
                Ok(b) => bindings_of(*global, None) == Ok::<Map<KeyEvent, Action>, Seq<char>>(
                    b.global@,
                ) && page_tables_of(pages@) == Ok::<Map<PageId, Map<KeyEvent, Action>>, Seq<char>>(
                    b.page_tables(),
                ),
                Err(message) => bindings_of(*global, None) == Err::<
                    Map<KeyEvent, Action>,
                    Seq<char>,
                >(message@) || (bindings_of(*global, None) is Ok && page_tables_of(pages@) == Err::<
                    Map<PageId, Map<KeyEvent, Action>>,
                    Seq<char>,
                >(message@)),
            },
    {
        let mut bindings = KeyBindings::new();
        match parse_global_keybindings(global) {
            Ok(table) => {
                bindings.global = table;
            },
            Err(message) => {
                return Err(message);
            },
        }
        let mut i: usize = 0;
        assert(pages@.take(0) == Seq::<(PageId, RawPageKeyBindings)>::empty());
        assert(bindings.page_tables() =~= Map::<PageId, Map<KeyEvent, Action>>::empty());
        while i < pages.len()
            invariant
                i <= pages.len(),
                bindings_of(*global, None) == Ok::<Map<KeyEvent, Action>, Seq<char>>(
                    bindings.global@,
                ),
                page_tables_of(pages@.take(i as int)) == Ok::<
                    Map<PageId, Map<KeyEvent, Action>>,
                    Seq<char>,
                >(bindings.page_tables()),
            decreases pages.len() - i,
        {
            proof {
                assert(pages@.take(i + 1).drop_last() == pages@.take(i as int));
                assert(pages@.take(i + 1).last() == pages@[i as int]);
            }
            let ghost before = bindings.page_tables();
            match parse_page_keybindings(pages[i].0, &pages[i].1) {
                Ok(table) => {
                    let ghost t = table@;
                    bindings.set_page(pages[i].0, table);
                    assert(bindings.page_tables() =~= before.insert(pages@[i as int].0, t));
                },
                Err(message) => {
                    proof {
                        lemma_page_tables_of_fails(pages@, i + 1);
                    }
                    return Err(message);
                },
            }
            i += 1;
        }
        assert(pages@.take(pages.len() as int) == pages@);
        Ok(bindings)
    }

    /// Enters each default binding whose key stroke the scope does not bind
    /// itself, in the global scope and in each page that `defaults` has a
    /// table for.
    pub fn merge_defaults(&mut self, defaults: &KeyBindings)
        ensures
            final(self).global@ == defaults.global@.union_prefer_right(old(self).global@),
            forall|page: PageId|
                final(self).page_table(page) == filled(
                    #[trigger] old(self).page_table(page),
                    defaults.page_table(page),
                ),
    {
        let mut home: Option<PageKeyBindings> = None;
        let mut game: Option<PageKeyBindings> = None;
        let mut card: Option<PageKeyBindings> = None;
        core::mem::swap(&mut self.home, &mut home);
        core::mem::swap(&mut self.game, &mut game);
        core::mem::swap(&mut self.card, &mut card);
        self.home = fill_page(home, &defaults.home);
        self.game = fill_page(game, &defaults.game);
        self.card = fill_page(card, &defaults.card);
        self.global.fill_from(&defaults.global);
    }
}

} // verus!
