use flappy::action::{Action, ActionState, Command, GameAction, HomeAction};
use flappy::app::{AppState, Mode, NextStep, Outcome, Redraw, CARD_PAGE, GAME_PAGE, HOME_PAGE};
use flappy::components::background::{
    cell_from_lots, filter_text, Background, BackgroundState, NO_FLAKE,
};
use flappy::components::multiline::{preprocess_lines, preprocess_pixels, MultiLine};
use flappy::constants::background::{snowflake, GROUND_HEIGHT, SNOWMAN, TREEBODY_TEXT, TREEBOTTOM_TEXT, TREETOP_TEXT};
use flappy::constants::title::{TITLE_SHADOW, TITLE_TEXT};
use flappy::layout::Rect;
use flappy::model::ModelResponse;
use flappy::pages::card::CardPage;
use flappy::pages::home::HomePage;
use flappy::pages::PageId;
use flappy::style::{Color, Style};

fn strings(lines: &[&str]) -> Vec<String> {
    lines.iter().map(|s| s.to_string()).collect()
}

fn area() -> Rect {
    Rect { x: 10, y: 20, width: 30, height: 40 }
}

#[test]
fn multiline_builders_keep_what_they_do_not_set() {
    let m = MultiLine::new(strings(&["a", "b"]));
    assert_eq!((m.lines.clone(), m.line_padding, m.ignore_whitespace), (strings(&["a", "b"]), 0, false));
    let m = m.line_padding(3).ignore_whitespace(true);
    assert_eq!((m.lines.clone(), m.line_padding, m.ignore_whitespace), (strings(&["a", "b"]), 3, true));
    let p = m.pixel_mode();
    assert_eq!((p.lines.clone(), p.line_padding, p.ignore_whitespace), (strings(&["a", "b"]), 3, true));
    let styled = p.style(Style::new().fg(Color::Red));
    assert_eq!(styled.style.0, Style::new().fg(Color::Red));
    assert_eq!((styled.lines.clone(), styled.line_padding, styled.ignore_whitespace), (strings(&["a", "b"]), 3, true));
    let l = MultiLine::new(strings(&["a", "b"])).pixel_mode().line_mode().ignore_whitespace(false);
    assert_eq!((l.lines.clone(), l.line_padding, l.ignore_whitespace), (strings(&["a", "b"]), 0, false));
    let styles = vec![Style::new().fg(Color::Red), Style::new().bg(Color::Blue)];
    let ls = l.line_styles(styles.clone());
    assert_eq!(ls.line_styles.0, styles);
    assert_eq!(ls.lines, strings(&["a", "b"]));
    let s = MultiLine::new(strings(&["x"])).line_padding(2).style(Style::new().bg(Color::Green));
    assert_eq!(s.style.0.bg, Some(Color::Green));
    assert_eq!((s.lines.clone(), s.line_padding, s.ignore_whitespace), (strings(&["x"]), 2, false));
}

#[test]
fn lines_get_a_row_each() {
    let (texts, areas) = preprocess_lines(strings(&["  ab ", "", "cde"]), 0, false, area());
    assert_eq!(texts, strings(&["  ab ", "", "cde"]));
    assert_eq!(
        areas,
        vec![
            Rect { x: 10, y: 20, width: 5, height: 1 },
            Rect { x: 10, y: 21, width: 0, height: 1 },
            Rect { x: 10, y: 22, width: 3, height: 1 }
        ]
    );
    let (_, areas) = preprocess_lines(strings(&["a", "b", "c"]), 2, false, area());
    assert_eq!(areas.iter().map(|r| r.y).collect::<Vec<_>>(), vec![20, 23, 26]);
}

#[test]
fn lines_without_their_white_space_move_right() {
    let (texts, areas) = preprocess_lines(strings(&["  ab ", "   ", "c d", "\t\u{3000}x"]), 1, true, area());
    assert_eq!(texts, strings(&["ab", "", "c d", "x"]));
    assert_eq!(
        areas,
        vec![
            Rect { x: 12, y: 20, width: 2, height: 1 },
            Rect { x: 13, y: 22, width: 0, height: 1 },
            Rect { x: 10, y: 24, width: 3, height: 1 },
            Rect { x: 12, y: 26, width: 1, height: 1 }
        ]
    );
}

#[test]
fn places_stop_where_the_screen_has_no_more_numbers() {
    let far = Rect { x: 65534, y: 65534, width: 10, height: 10 };
    let (_, areas) = preprocess_lines(strings(&["   a", "b", "c"]), 0, true, far);
    assert_eq!(areas[0], Rect { x: 65535, y: 65534, width: 1, height: 1 });
    assert_eq!(areas[1], Rect { x: 65534, y: 65535, width: 1, height: 1 });
    assert_eq!(areas[2], Rect { x: 65534, y: 65535, width: 1, height: 1 });
    let (_, areas) = preprocess_lines(strings(&["a", "b"]), 65535, false, Rect { x: 0, y: 0, width: 1, height: 1 });
    assert_eq!(areas[1].y, 65535);
    let (pixels, areas) = preprocess_pixels(strings(&["abc"]), 0, false, far);
    assert_eq!(pixels, strings(&["a", "b", "c"]));
    assert_eq!(areas.iter().map(|r| r.x).collect::<Vec<_>>(), vec![65534, 65535, 65535]);
}

#[test]
fn glyphs_get_a_cell_each() {
    let (pixels, areas) = preprocess_pixels(strings(&["ab", "", " c"]), 1, false, area());
    assert_eq!(pixels, strings(&["a", "b", " ", "c"]));
    assert_eq!(
        areas,
        vec![
            Rect { x: 10, y: 20, width: 1, height: 1 },
            Rect { x: 11, y: 20, width: 1, height: 1 },
            Rect { x: 10, y: 24, width: 1, height: 1 },
            Rect { x: 11, y: 24, width: 1, height: 1 }
        ]
    );
    let (pixels, areas) = preprocess_pixels(strings(&[" a b", "  ", "\u{2588} "]), 0, true, area());
    assert_eq!(pixels, strings(&["a", "b", "\u{2588}"]));
    assert_eq!(
        areas,
        vec![
            Rect { x: 11, y: 20, width: 1, height: 1 },
            Rect { x: 13, y: 20, width: 1, height: 1 },
            Rect { x: 10, y: 22, width: 1, height: 1 }
        ]
    );
    let (pixels, areas) = preprocess_pixels(Vec::new(), 0, true, area());
    assert!(pixels.is_empty() && areas.is_empty());
}

#[test]
fn the_home_page_moves_its_selection_within_its_options() {
    let mut home = HomePage::new();
    assert_eq!(home.id(), PageId::Home);
    assert_eq!(home.selected_option(), 0);
    home.up();
    assert_eq!(home.selected_option(), 0);
    home.down();
    assert_eq!(home.selected_option(), 0);
    assert_eq!(home.update(&Action::new(Command::Home(HomeAction::Up))), None);
    assert_eq!(home.update(&Action::new(Command::Home(HomeAction::Down))), None);
    assert_eq!(home.update(&Action::new(Command::Quit)), None);
    assert_eq!(home.update(&Action::new(Command::Game(GameAction::Up))), None);
    assert_eq!(
        home.update(&Action { command: Command::Home(HomeAction::Select), state: ActionState::End }),
        Some(Action { command: Command::StartGame, state: ActionState::Start })
    );
    assert_eq!(home.selected_option(), 0);
}

#[test]
fn options_are_shown_padded_and_styled() {
    let home = HomePage::new();
    assert_eq!(home.option_titles(), strings(&["  Start playing  "]));
    assert_eq!(home.option_width(), 13 + 4);
    assert_eq!(home.option_styles(), vec![Style::new().fg(Color::Black).bg(Color::Blue)]);
}

#[test]
fn the_card_goes_by_the_bindings_of_the_home_page() {
    let mut card = CardPage::new();
    assert_eq!(card.id(), PageId::Home);
    card.up();
    card.down();
    assert_eq!(card.update(&Action::new(Command::Home(HomeAction::Up))), None);
    assert_eq!(card.update(&Action::new(Command::ShowCard)), None);
    assert_eq!(
        card.update(&Action::new(Command::Home(HomeAction::Select))),
        Some(Action::new(Command::StartGame))
    );
    assert_eq!(card.card_size(&strings(&["ab", "abcd", ""]), 3, 1), (2 * 4 + 6, 3 + 2));
    assert_eq!(card.card_size(&Vec::new(), 0, 0), (0, 0));
    assert_eq!(card.card_size(&strings(&["x"]), 40000, 65535), (65535, 65535));
}

#[test]
fn the_shell_notes_what_commands_change() {
    let mut app = AppState::new(3);
    assert_eq!((app.get_active_page(), app.active_page_id()), (HOME_PAGE, PageId::Home));
    assert_eq!(app.step(), NextStep::Continue);
    assert_eq!(app.handle(&Command::Tick), Outcome { redraw: Redraw::Keep, forward: true });
    assert_eq!(app.handle(&Command::Render), Outcome { redraw: Redraw::Draw, forward: true });
    assert_eq!(app.handle(&Command::Resize(80, 24)), Outcome { redraw: Redraw::Resize(80, 24), forward: true });
    assert_eq!(app, AppState::new(3));

    assert_eq!(app.handle(&Command::ToggleShowHelp), Outcome { redraw: Redraw::Keep, forward: false });
    assert!(app.show_help);
    assert_eq!(app.handle(&Command::Game(GameAction::Up)), Outcome { redraw: Redraw::Keep, forward: false });
    assert_eq!(app.handle(&Command::ToggleShowHelp), Outcome { redraw: Redraw::Keep, forward: true });
    assert!(!app.show_help);

    app.handle(&Command::StartGame);
    assert_eq!((app.get_active_page(), app.active_page_id()), (GAME_PAGE, PageId::Game));
    assert!(!app.show_snowman && !app.show_tree);
    app.handle(&Command::ShowCard);
    assert_eq!((app.get_active_page(), app.active_page_id()), (CARD_PAGE, PageId::Home));

    app.handle(&Command::Quit);
    assert_eq!(app.step(), NextStep::Quit);
    app.handle(&Command::Suspend);
    assert_eq!(app.step(), NextStep::Suspend);
    app.handle(&Command::Resume);
    assert_eq!(app.step(), NextStep::Quit);
    app.handle(&Command::Error("x".to_string()));
    app.handle(&Command::Refresh);
    app.handle(&Command::Help);
    assert_eq!(app.step(), NextStep::Quit);
}

#[test]
fn only_a_page_that_exists_becomes_active() {
    let mut app = AppState::new(2);
    app.set_active_page(1);
    assert_eq!(app.get_active_page(), 1);
    app.set_active_page(2);
    assert_eq!(app.get_active_page(), 1);
    app.handle(&Command::ShowCard);
    assert_eq!(app.get_active_page(), 1);
    let mut none = AppState::new(0);
    none.handle(&Command::StartGame);
    assert_eq!(none.get_active_page(), 0);
    assert!(!none.show_snowman);
    assert_eq!(Mode::default(), Mode::Home);
    assert_ne!(ModelResponse::NoOp, ModelResponse::Exit);
}

#[test]
fn the_sky_ends_above_the_ground() {
    let state = BackgroundState::new(2, 33_333);
    assert_eq!(GROUND_HEIGHT, 3);
    assert_eq!(state.get_empty_area(area()), Rect { x: 10, y: 20, width: 30, height: 37 });
    assert_eq!(state.get_empty_area(Rect { x: 1, y: 2, width: 3, height: 3 }).height, 0);
    assert_eq!(state.get_empty_area(Rect { x: 1, y: 2, width: 3, height: 2 }).height, 0);
    assert!(state.shows_snowman() && state.shows_tree());
    let _ = Background::new();
}

#[test]
fn snow_falls_row_by_row() {
    let sky = Rect { x: 0, y: 0, width: 3, height: 2 };
    let mut state = BackgroundState::new(2, 500_000);
    assert_eq!(state.draws_needed(sky, 499), 0);
    assert_eq!(state.update_with(sky, 499, &vec![]), strings(&["   ", "   "]));
    assert_eq!(state.draws_needed(sky, 1), 3);
    assert_eq!(state.update_with(sky, 1, &vec![0, NO_FLAKE, 2]), strings(&["\u{2744} \u{2746}", "   "]));
    assert_eq!(state.draws_needed(sky, 499), 0);
    assert_eq!(state.update_with(sky, 499, &vec![1, 1, 1]), strings(&["\u{2744} \u{2746}", "   "]));
    assert_eq!(state.update_with(sky, 1, &vec![1, 1, NO_FLAKE, 0]), strings(&["\u{2745}\u{2745} ", "\u{2744} \u{2746}"]));
    assert_eq!(state.update_with(sky, 5000, &vec![NO_FLAKE, NO_FLAKE, NO_FLAKE]), strings(&["   ", "\u{2745}\u{2745} "]));
}

#[test]
fn the_snow_follows_the_size_of_the_sky() {
    let mut state = BackgroundState::new(1, 0);
    let sky = Rect { x: 0, y: 0, width: 2, height: 2 };
    state.update_with(sky, 1000, &vec![0, 1]);
    assert_eq!(state.update_with(sky, 1000, &vec![2, 2]), strings(&["\u{2746}\u{2746}", "\u{2744}\u{2745}"]));

    let wider = Rect { x: 0, y: 0, width: 4, height: 3 };
    assert_eq!(state.draws_needed(wider, 0), 4);
    assert_eq!(state.draws_needed(wider, 1000), 8);
    assert_eq!(
        state.update_with(wider, 0, &vec![0, 0, 1, 1]),
        strings(&["\u{2746}\u{2746}\u{2744}\u{2744}", "\u{2744}\u{2745}\u{2745}\u{2745}", "    "])
    );
    let narrow = Rect { x: 0, y: 0, width: 1, height: 2 };
    assert_eq!(state.draws_needed(narrow, 999), 0);
    assert_eq!(state.update_with(narrow, 999, &vec![]), strings(&["\u{2746}", "\u{2744}"]));
    assert_eq!(state.draws_needed(narrow, 1), 1);
    assert_eq!(state.update_with(narrow, 1, &vec![1]), strings(&["\u{2745}", "\u{2746}"]));
    let gone = Rect { x: 0, y: 0, width: 5, height: 0 };
    assert_eq!(state.draws_needed(gone, 1000), 2 * 4 + 5);
    assert_eq!(state.update_with(gone, 1000, &vec![0; 13]), Vec::<String>::new());
    assert_eq!(state.draws_needed(sky, 0), 0);
    assert_eq!(state.update_with(sky, 0, &vec![]), strings(&["  ", "  "]));
}

#[test]
fn snow_drawn_by_lot_is_snow() {
    let mut state = BackgroundState::new(1000, 1_000_000);
    let sky = Rect { x: 0, y: 0, width: 5, height: 4 };
    for _ in 0..6 {
        let rows = state.update(sky, 1);
        assert_eq!(rows.len(), 4);
        for row in rows.iter() {
            assert_eq!(row.chars().count(), 5);
            assert!(row.chars().all(|c| c == ' ' || ('\u{2744}'..='\u{2746}').contains(&c)));
        }
        assert!(rows[0].chars().all(|c| c != ' '));
    }
    let mut never = BackgroundState::new(1000, 0);
    for _ in 0..3 {
        assert_eq!(never.update(sky, 1), strings(&["     "; 4]));
    }
    state.set_scenery(false, true);
    assert!(!state.shows_snowman() && state.shows_tree());
    assert_eq!([snowflake(0), snowflake(1), snowflake(2), snowflake(3), snowflake(9)], ['\u{2744}', '\u{2745}', '\u{2746}', ' ', ' ']);
}

#[test]
fn art_is_measured_by_its_lines() {
    assert_eq!(filter_text("\na\n\nbc\n"), (strings(&["a", "bc"]), 2));
    assert_eq!(filter_text(SNOWMAN).1, 18);
    assert_eq!(filter_text(TREETOP_TEXT).1, 2);
    assert_eq!(filter_text(TREEBODY_TEXT).1, 15);
    assert_eq!(filter_text(TREEBOTTOM_TEXT).1, 17);
    assert_eq!(filter_text(TITLE_TEXT).1, 6);
    assert_eq!(filter_text(TITLE_SHADOW).1, 6);
    assert_eq!(filter_text(TITLE_TEXT).0[0].chars().count(), 119);
}

#[test]
fn two_lots_stand_for_a_cell() {
    assert_eq!(cell_from_lots(0, 2, 1), 2);
    assert_eq!(cell_from_lots(33_332, 1, 33_333), 1);
    assert_eq!(cell_from_lots(33_333, 1, 33_333), NO_FLAKE);
    assert_eq!(cell_from_lots(0, 0, 0), NO_FLAKE);
    assert_eq!(cell_from_lots(999_999, 0, 1_000_000), 0);
    assert_eq!(cell_from_lots(999_999, 2, u32::MAX), 2);
}
