use flappy::action::{Action, ActionState, CardAction, Command, GameAction, HomeAction};
use flappy::components::help::Help;
use flappy::config::{
    merge_keybinding_maps, parse_binding_pairs, parse_global_keybindings, parse_page_keybindings,
    AppConfig, Config, KeyBindings, PageKeyBindings, RawPageKeyBindings,
};
use flappy::keys::{KeyCode, KeyEvent, KeyEventKind, KeyModifiers};
use flappy::pages::PageId;

fn key(code: KeyCode) -> KeyEvent {
    KeyEvent::new(code, KeyModifiers::empty())
}

fn raw(click: &[(&str, Command)], hold: &[(&str, Command)]) -> RawPageKeyBindings {
    RawPageKeyBindings {
        click: click.iter().map(|(k, c)| (k.to_string(), c.clone())).collect(),
        hold: hold.iter().map(|(k, c)| (k.to_string(), c.clone())).collect(),
    }
}

fn default_bindings() -> KeyBindings {
    let global = raw(
        &[("q", Command::Quit), ("ctrl-c", Command::Quit), ("?", Command::ToggleShowHelp)],
        &[],
    );
    let pages = vec![
        (
            PageId::Home,
            raw(
                &[
                    ("up", Command::Home(HomeAction::Up)),
                    ("down", Command::Home(HomeAction::Down)),
                    ("enter", Command::Home(HomeAction::Select)),
                ],
                &[],
            ),
        ),
        (PageId::Game, raw(&[], &[("space", Command::Game(GameAction::Up))])),
    ];
    KeyBindings::from_raw(&global, &pages).unwrap()
}

#[test]
fn test_new_help() {
    let keybindings = default_bindings();
    let home = parse_page_keybindings(
        PageId::Home,
        &raw(
            &[
                ("up", Command::Home(HomeAction::Up)),
                ("down", Command::Home(HomeAction::Down)),
                ("enter", Command::Home(HomeAction::Select)),
            ],
            &[],
        ),
    )
    .unwrap();
    let keybinding_groups = vec![("System".to_string(), keybindings.global), ("Home".to_string(), home)];
    let help = Help::new(keybinding_groups);

    println!("{help:?}");
}

#[test]
fn test_config() {
    let mut c = Config {
        config: AppConfig::default(),
        keybindings: KeyBindings::from_raw(&raw(&[("q", Command::Help)], &[]), &vec![]).unwrap(),
    };
    let defaults = Config { config: AppConfig::default(), keybindings: default_bindings() };
    c.merge_defaults(&defaults);
    println!("{:?}", c.keybindings.page(PageId::Home).map(|t| t.len()));
}

#[test]
fn resolver_prefers_the_page_to_the_global_table() {
    let global = raw(&[("q", Command::Quit)], &[]);
    let pages = vec![(PageId::Home, raw(&[("q", Command::Home(HomeAction::Select))], &[]))];
    let bindings = KeyBindings::from_raw(&global, &pages).unwrap();
    let q = key(KeyCode::Char('q'));

    assert_eq!(
        bindings.resolve(PageId::Home, &q),
        Some(&Action { command: Command::Home(HomeAction::Select), state: ActionState::Start })
    );
    assert_eq!(
        bindings.resolve(PageId::Game, &q),
        Some(&Action { command: Command::Quit, state: ActionState::Start })
    );
    assert_eq!(bindings.resolve(PageId::Card, &q), Some(&Action::new(Command::Quit)));
    assert_eq!(bindings.resolve(PageId::Home, &key(KeyCode::Char('x'))), None);
}

#[test]
fn a_hold_binding_gives_its_command_in_three_phases() {
    let pages = vec![(PageId::Game, raw(&[], &[("space", Command::Game(GameAction::Up))]))];
    let bindings = KeyBindings::from_raw(&raw(&[], &[]), &pages).unwrap();
    let press = key(KeyCode::Char(' '));
    let repeat = press.with_kind(KeyEventKind::Repeat);
    let release = press.with_kind(KeyEventKind::Release);
    let up = Command::Game(GameAction::Up);

    assert_eq!(
        bindings.resolve(PageId::Game, &press),
        Some(&Action { command: up.clone(), state: ActionState::Start })
    );
    assert_eq!(
        bindings.resolve(PageId::Game, &repeat),
        Some(&Action { command: up.clone(), state: ActionState::Repeat })
    );
    assert_eq!(
        bindings.resolve(PageId::Game, &release),
        Some(&Action { command: up.clone(), state: ActionState::End })
    );
    assert_eq!(bindings.resolve(PageId::Home, &press), None);
    assert_eq!(bindings.page(PageId::Game).unwrap().len(), 3);
}

#[test]
fn a_click_binding_gives_its_command_on_the_press_only() {
    let table = parse_global_keybindings(&raw(&[("q", Command::Quit)], &[])).unwrap();
    let press = key(KeyCode::Char('q'));
    assert_eq!(table.get(&press), Some(&Action { command: Command::Quit, state: ActionState::Start }));
    assert_eq!(table.get(&press.with_kind(KeyEventKind::Release)), None);
    assert_eq!(table.get(&press.with_kind(KeyEventKind::Repeat)), None);
    assert_eq!(table.len(), 1);
}

#[test]
fn a_later_binding_replaces_an_earlier_one_and_hold_comes_after_click() {
    let table = parse_global_keybindings(&raw(
        &[("q", Command::Quit), ("<q>", Command::Help), ("x", Command::Refresh)],
        &[("x", Command::Suspend)],
    ))
    .unwrap();
    assert_eq!(table.get(&key(KeyCode::Char('q'))), Some(&Action::new(Command::Help)));
    assert_eq!(table.get(&key(KeyCode::Char('x'))), Some(&Action::new(Command::Suspend)));
    assert_eq!(
        table.get(&key(KeyCode::Char('x')).with_kind(KeyEventKind::Release)),
        Some(&Action { command: Command::Suspend, state: ActionState::End })
    );
    assert_eq!(table.len(), 4);
}

#[test]
fn key_strokes_are_looked_up_by_their_normal_form() {
    let table = parse_global_keybindings(&raw(&[("shift-a", Command::Help)], &[])).unwrap();
    let upper = key(KeyCode::Char('A'));
    let shifted_lower = KeyEvent::new(KeyCode::Char('a'), KeyModifiers::shift());
    assert_eq!(table.get(&upper), Some(&Action::new(Command::Help)));
    assert_eq!(table.get(&shifted_lower), Some(&Action::new(Command::Help)));
    assert_eq!(table.get(&key(KeyCode::Char('a'))), None);
    assert!(table.contains_key(&upper));
    assert!(!table.contains_key(&key(KeyCode::Char('b'))));
}

#[test]
fn a_bad_key_descriptor_fails_the_build_with_its_message() {
    let bad = raw(&[("q", Command::Quit), ("nokey", Command::Help), ("<x", Command::Help)], &[]);
    assert_eq!(parse_global_keybindings(&bad).err(), Some("Unable to parse nokey".to_string()));
    let bad_hold = raw(&[("q", Command::Quit)], &[("<x", Command::Help)]);
    assert_eq!(parse_global_keybindings(&bad_hold).err(), Some("Unable to parse `<x`".to_string()));
    let both = raw(&[("<<a>", Command::Quit)], &[("nokey", Command::Help)]);
    assert_eq!(parse_global_keybindings(&both).err(), Some("Unable to parse `<<a>`".to_string()));
    assert_eq!(
        KeyBindings::from_raw(&raw(&[], &[]), &vec![(PageId::Home, bad_hold_for_home())]).err(),
        Some("Unable to parse bogus".to_string())
    );
    assert_eq!(
        KeyBindings::from_raw(&bad, &vec![(PageId::Home, bad_hold_for_home())]).err(),
        Some("Unable to parse nokey".to_string())
    );
}

fn bad_hold_for_home() -> RawPageKeyBindings {
    raw(&[("up", Command::Home(HomeAction::Up))], &[("bogus", Command::Home(HomeAction::Down))])
}

#[test]
fn a_page_takes_only_its_own_commands() {
    let foreign = raw(&[("q", Command::Quit)], &[]);
    assert_eq!(
        parse_page_keybindings(PageId::Home, &foreign).err(),
        Some("Unable to parse `Quit` as a command of page Home".to_string())
    );
    let other_page = raw(&[("up", Command::Game(GameAction::Up))], &[]);
    assert_eq!(
        parse_page_keybindings(PageId::Card, &other_page).err(),
        Some("Unable to parse `Up` as a command of page Card".to_string())
    );
    assert!(parse_page_keybindings(PageId::Game, &other_page).is_ok());
    assert!(parse_page_keybindings(PageId::Card, &raw(&[("up", Command::Card(CardAction::Up))], &[])).is_ok());
    assert!(parse_global_keybindings(&other_page).is_ok());
    let command_first = raw(&[("nokey", Command::Quit)], &[]);
    assert_eq!(
        parse_page_keybindings(PageId::Home, &command_first).err(),
        Some("Unable to parse `Quit` as a command of page Home".to_string())
    );
}

#[test]
fn pairs_are_read_in_order() {
    let pairs = parse_binding_pairs(
        &vec![("a".to_string(), Command::Quit), ("ctrl-b".to_string(), Command::Help)],
        None,
    )
    .unwrap();
    assert_eq!(
        pairs,
        vec![
            (key(KeyCode::Char('a')), Command::Quit),
            (KeyEvent::new(KeyCode::Char('b'), KeyModifiers::control()), Command::Help)
        ]
    );
    let table = merge_keybinding_maps(&pairs, &vec![]);
    assert_eq!(table.len(), 2);
    assert_eq!(table.entry(0).0, key(KeyCode::Char('a')));
    assert_eq!(table.entry(1).1, &Action::new(Command::Help));
}

#[test]
fn defaults_fill_what_the_user_left_unbound() {
    let mut user = KeyBindings::from_raw(
        &raw(&[("q", Command::Help)], &[]),
        &vec![(PageId::Home, raw(&[("enter", Command::Home(HomeAction::Up))], &[]))],
    )
    .unwrap();
    user.merge_defaults(&default_bindings());

    let any = PageId::Card;
    assert_eq!(user.resolve(any, &key(KeyCode::Char('q'))), Some(&Action::new(Command::Help)));
    assert_eq!(user.resolve(any, &key(KeyCode::Char('?'))), Some(&Action::new(Command::ToggleShowHelp)));
    assert_eq!(
        user.resolve(any, &KeyEvent::new(KeyCode::Char('c'), KeyModifiers::control())),
        Some(&Action::new(Command::Quit))
    );
    assert_eq!(
        user.resolve(PageId::Home, &key(KeyCode::Enter)),
        Some(&Action::new(Command::Home(HomeAction::Up)))
    );
    assert_eq!(
        user.resolve(PageId::Home, &key(KeyCode::Up)),
        Some(&Action::new(Command::Home(HomeAction::Up)))
    );
    assert_eq!(user.page(PageId::Home).unwrap().len(), 3);
    assert_eq!(user.page(PageId::Game).unwrap().len(), 3);
    assert!(user.page(PageId::Card).is_none());
    assert_eq!(user.global.len(), 3);
}

#[test]
fn an_empty_table_binds_nothing() {
    let table = PageKeyBindings::new();
    assert_eq!(table.len(), 0);
    assert_eq!(table.get(&key(KeyCode::Enter)), None);
    let bindings = KeyBindings::new();
    assert_eq!(bindings.resolve(PageId::Home, &key(KeyCode::Enter)), None);
    assert!(bindings.page(PageId::Home).is_none());
}

#[test]
fn insert_replaces_and_set_page_installs() {
    let mut table = PageKeyBindings::new();
    table.insert(key(KeyCode::Enter), Action::new(Command::Help));
    table.insert(key(KeyCode::Enter), Action::new(Command::Quit));
    assert_eq!(table.len(), 1);
    assert_eq!(table.get(&key(KeyCode::Enter)), Some(&Action::new(Command::Quit)));
    let mut bindings = KeyBindings::new();
    bindings.set_page(PageId::Game, table);
    assert_eq!(bindings.resolve(PageId::Game, &key(KeyCode::Enter)), Some(&Action::new(Command::Quit)));
    assert_eq!(bindings.resolve(PageId::Home, &key(KeyCode::Enter)), None);
}

#[test]
fn help_lists_the_press_bindings_in_the_order_of_their_keys() {
    let table = parse_global_keybindings(&raw(
        &[("q", Command::Quit), ("ctrl-c", Command::Quit), ("enter", Command::ToggleShowHelp)],
        &[("b", Command::Game(GameAction::Up))],
    ))
    .unwrap();
    let help = Help::new(vec![("System".to_string(), table), ("Empty".to_string(), PageKeyBindings::new())]);
    assert_eq!(help.keybinding_groups.len(), 2);
    assert_eq!(help.keybinding_groups[0].0, "System");
    let rows: Vec<(&str, &str)> =
        help.keybinding_groups[0].1.iter().map(|(k, v)| (k.as_str(), v.as_str())).collect();
    assert_eq!(rows, vec![("Enter", "ToggleShowHelp"), ("b", "Up"), ("ctrl-c", "Quit"), ("q", "Quit")]);
    assert!(help.keybinding_groups[1].1.is_empty());
    assert_eq!((help.column_spacing, help.margin_vertical, help.margin_horizantal), (5, 1, 2));
    assert_eq!(help.key_length(), 6);
    assert_eq!(help.val_length(), 14);
    assert_eq!(help.width(), 6 + 14 + 5 + 4 + 2);
    assert_eq!(help.heights(), vec![4 + 2 + 2 + 2, 0 + 2 + 2 + 2]);
}

#[test]
fn commands_are_shown_by_their_names() {
    assert_eq!(Command::Quit.string(), "Quit");
    assert_eq!(Command::Resize(3, 4).string(), "Resize");
    assert_eq!(Command::Error("x".to_string()).string(), "Error");
    assert_eq!(Command::ToggleShowHelp.string(), "ToggleShowHelp");
    assert_eq!(Command::Home(HomeAction::Select).string(), "Select");
    assert_eq!(Command::Game(GameAction::Left).string(), "Left");
    assert_eq!(Command::Card(CardAction::Down).string(), "Down");
    assert_eq!(PageId::Game.string(), "Game");
    assert_eq!(Command::Game(GameAction::Up).page(), Some(PageId::Game));
    assert_eq!(Command::Tick.page(), None);
    assert_eq!(ActionState::default(), ActionState::Start);
    assert_eq!(Command::Error("x".to_string()).clone(), Command::Error("x".to_string()));
}

#[test]
fn a_copy_of_a_table_binds_the_same() {
    let table = parse_global_keybindings(&raw(&[("q", Command::Quit)], &[("x", Command::Error("e".to_string()))]))
        .unwrap();
    let copy = table.clone();
    assert_eq!(copy.len(), table.len());
    for i in 0..table.len() {
        assert_eq!(copy.entry(i), table.entry(i));
    }
    assert_eq!(copy.get(&key(KeyCode::Char('q'))), Some(&Action::new(Command::Quit)));
}
