use flappy::action::{Action, ActionState, Command, GameAction, HomeAction};
use flappy::constants::game::{bird_colors, bird_texts, game_config, pipe_color};
use flappy::layout::Rect;
use flappy::pages::game::object::Object;
use flappy::pages::game::pipes::{
    fit_gap, generate_pipe_string, lower_pipe_height, rand_in, repeat_glyph, upper_pipe_height,
    Draws,
};
use flappy::pages::game::round::{GameConfig, LifecycleSignal, State};
use flappy::pages::game::GamePage;
use flappy::style::Color;

const STEP: u32 = 84;

fn canvas() -> Rect {
    Rect { x: 0, y: 0, width: 80, height: 24 }
}

fn draws(gap: u16, height: u16, margin: u16) -> Draws {
    Draws { gap, height, margin }
}

fn weightless() -> GameConfig {
    GameConfig { gravity: 0, ..game_config() }
}

fn flap() -> Command {
    Command::Game(GameAction::Up)
}

#[test]
fn a_game_begins_idle() {
    let game = GamePage::new();
    assert_eq!(game.state(), State::Idle);
    assert_eq!(game.config(), game_config());
    assert_eq!(game.canvas(), Rect { x: 0, y: 0, width: 0, height: 0 });
    assert_eq!(game.pipe_count(), 0);
    assert_eq!(game.generated(), 0);
    assert_eq!(game.progress(), 0);
    assert_eq!(game.next_pipe(), (0, 0, 0));
    assert!(!game.is_finished());
    assert_eq!(game.bird().get_size(), (5, 4));
    assert_eq!(game.bird().get_pos(), (0, 0));
    assert_eq!(game.bird().get_colors(), bird_colors());
    assert_eq!(game.bird().get_colors(), vec![Some(Color::LightBlue), Some(Color::Yellow)]);
    assert_eq!(
        game.bird().get_layers(),
        vec![
            vec![" ^ ^".to_string(), "(   )".to_string(), "(   )".to_string(), "- - -".to_string()],
            vec!["    ".to_string(), " O,O ".to_string(), "     ".to_string(), " \" \" ".to_string()]
        ]
    );
    assert_eq!(bird_texts().len(), 2);
    assert!(game.render_entities().is_empty());
}

#[test]
fn an_idle_game_does_not_tick() {
    let mut game = GamePage::new();
    assert_eq!(game.on_tick_with(1000, draws(1, 2, 3)), None);
    assert_eq!(game.on_tick(1000), None);
    assert_eq!(game.state(), State::Idle);
    assert_eq!(game.bird().fine_y(), 0);
    assert_eq!(game.bird().velocity(), 0);
    assert_eq!(game.progress(), 0);
}

#[test]
fn the_canvas_makes_the_game_ready() {
    let mut game = GamePage::new();
    game.on_canvas_resized_with(canvas(), draws(3, 4, 5));
    assert_eq!(game.state(), State::Ready);
    assert_eq!(game.canvas(), canvas());
    assert_eq!(game.bird().get_pos(), (20, 12));
    assert_eq!(game.pipe_count(), 0);
    assert_eq!(game.generated(), 0);
    assert_eq!(game.progress(), 0);
    assert_eq!(game.next_pipe(), (8 + 3, 2 + 4 % 9, 23 + 5 % 4));
    assert!(!game.is_finished());

    game.on_canvas_resized_with(Rect { x: 1, y: 1, width: 10, height: 10 }, draws(0, 0, 0));
    assert_eq!(game.canvas(), canvas());
    assert_eq!(game.next_pipe(), (11, 6, 24));
}

#[test]
fn the_canvas_is_cut_to_what_has_numbers() {
    let mut game = GamePage::new();
    game.on_canvas_resized(Rect { x: 65000, y: 10, width: 1000, height: 30 });
    assert_eq!(game.canvas(), Rect { x: 65000, y: 10, width: 535, height: 30 });
    assert_eq!(game.state(), State::Ready);
    let (gap, lower, margin) = game.next_pipe();
    assert!((8..12).contains(&gap));
    assert!(lower >= 2 && lower < 30 - gap - 2);
    assert!((23..27).contains(&margin));
}

#[test]
fn lots_stand_for_numbers_in_their_range() {
    assert_eq!(rand_in(10, 2, 0), 8);
    assert_eq!(rand_in(10, 2, 3), 11);
    assert_eq!(rand_in(10, 2, 4), 8);
    assert_eq!(rand_in(25, 2, 65535), 23 + 65535 % 4);
    assert_eq!(rand_in(65534, 1, 1), 65534);
    assert_eq!(rand_in(1, 1, 5), 1);
    for draw in [0u16, 1, 2, 3, 4, 5, 100, 65535] {
        let gap = rand_in(10, 2, draw);
        assert!((8..12).contains(&gap));
    }
    let d = Draws::random();
    assert!((23..27).contains(&rand_in(25, 2, d.margin)));
}

#[test]
fn pipes_fill_the_height_of_the_canvas() {
    for canvas_height in [10u16, 11, 12, 16, 24, 50, 1000, 65535] {
        for gap_draw in [0u16, 1, 2, 3] {
            for draw in [0u16, 1, 7, 1000, 65535] {
                let gap = fit_gap(canvas_height, rand_in(10, 2, gap_draw));
                let lower = lower_pipe_height(canvas_height, gap, draw);
                let upper = upper_pipe_height(canvas_height, gap, lower);
                assert!(lower >= 2);
                assert!(upper >= 2);
                assert_eq!(lower as u32 + gap as u32 + upper as u32, canvas_height as u32);
            }
        }
    }
}

#[test]
fn the_gap_gives_way_on_a_low_canvas() {
    assert_eq!(fit_gap(24, 11), 11);
    assert_eq!(fit_gap(15, 11), 11);
    assert_eq!(fit_gap(14, 11), 10);
    assert_eq!(fit_gap(10, 8), 6);
    assert_eq!(fit_gap(4, 8), 0);
    assert_eq!(fit_gap(3, 8), 0);
    assert_eq!(fit_gap(65535, 65535), 65531);
    assert_eq!(lower_pipe_height(24, 11, 4), 6);
    assert_eq!(lower_pipe_height(24, 11, 9), 2);
    assert_eq!(lower_pipe_height(16, 11, 7), 2);
    assert_eq!(lower_pipe_height(15, 11, 7), 2);
    assert_eq!(lower_pipe_height(3, 0, 7), 2);
    assert_eq!(upper_pipe_height(24, 11, 6), 7);
    assert_eq!(upper_pipe_height(10, 6, 2), 2);
    assert_eq!(upper_pipe_height(3, 0, 2), 2);
    assert_eq!(upper_pipe_height(0, 0, 2), 2);
}

#[test]
fn a_pipe_has_its_rim_at_its_open_end() {
    assert_eq!(generate_pipe_string(3, 4, true), "\u{2588}\u{2588}\u{2588}\n\u{2588}\u{2588}\u{2588}\n|||\n|||");
    assert_eq!(generate_pipe_string(3, 4, false), "|||\n|||\n\u{2588}\u{2588}\u{2588}\n\u{2588}\u{2588}\u{2588}");
    assert_eq!(generate_pipe_string(2, 2, true), "\u{2588}\u{2588}\n\u{2588}\u{2588}");
    assert_eq!(generate_pipe_string(0, 3, false), "\n\n");
    assert_eq!(repeat_glyph('-', 4), "----");
    assert_eq!(repeat_glyph('-', 0), "");
    assert_eq!(pipe_color(), Some(Color::LightGreen));
}

#[test]
fn the_first_pair_comes_when_its_distance_has_scrolled() {
    let mut game = GamePage::with_config(weightless());
    game.on_canvas_resized_with(canvas(), draws(3, 4, 1));
    assert_eq!(game.next_pipe(), (11, 6, 24));
    assert_eq!(game.progress(), 0);
    assert_eq!(game.on_tick_with(STEP - 1, draws(0, 0, 0)), None);
    assert_eq!((game.pipe_count(), game.progress()), (0, 0));
    assert_eq!(game.on_tick_with(1, draws(0, 0, 0)), None);
    assert_eq!((game.pipe_count(), game.progress()), (0, 1));
    for step in 2..=29 {
        assert_eq!(game.on_tick_with(STEP, draws(0, 0, 0)), None);
        assert_eq!((game.pipe_count(), game.generated(), game.progress()), (0, 0, step));
    }
    assert_eq!(game.on_tick_with(STEP, draws(2, 1, 0)), None);
    assert_eq!(game.pipe_count(), 1);
    assert_eq!(game.generated(), 1);
    assert_eq!(game.progress(), 0);
    assert_eq!(game.next_pipe(), (10, 3, 23));
    let (lower, upper) = game.pipe_pair(0);
    assert_eq!(lower.get_pos(), (80, 0));
    assert_eq!(lower.get_size(), (6, 6));
    assert_eq!(upper.get_pos(), (80, 17));
    assert_eq!(upper.get_size(), (6, 7));
    assert_eq!(lower.get_colors(), vec![Some(Color::LightGreen)]);
    assert_eq!(lower.get_layers()[0][0], "\u{2588}".repeat(6));
    assert_eq!(lower.get_layers()[0][5], "||||||");
    assert_eq!(upper.get_layers()[0][0], "||||||");
    assert_eq!(upper.get_layers()[0][6], "\u{2588}".repeat(6));
}

/// A game on the canvas in which the first pair of pipes has just come.
fn with_first_pair(config: GameConfig, canvas: Rect, first: Draws) -> GamePage {
    let mut game = GamePage::with_config(config);
    game.on_canvas_resized_with(canvas, first);
    let mut steps = 0;
    while game.pipe_count() == 0 {
        assert_eq!(game.on_tick_with(STEP, draws(0, 0, 0)), None);
        steps += 1;
        assert!(steps <= 40);
    }
    assert_eq!(game.generated(), 1);
    assert_eq!(game.progress(), 0);
    game
}

#[test]
fn pipes_move_one_cell_each_step() {
    let mut game = with_first_pair(weightless(), canvas(), draws(3, 4, 1));
    assert_eq!(game.pipe_pair(0).0.get_pos(), (80, 0));
    game.on_tick_with(40, draws(0, 0, 0));
    assert_eq!(game.pipe_pair(0).0.get_pos(), (80, 0));
    game.on_tick_with(40, draws(0, 0, 0));
    assert_eq!(game.pipe_pair(0).0.get_pos(), (80, 0));
    game.on_tick_with(4, draws(0, 0, 0));
    assert_eq!(game.pipe_pair(0).0.get_pos(), (79, 0));
    assert_eq!(game.pipe_pair(0).1.get_pos(), (79, 17));
    assert_eq!(game.progress(), 1);
    game.on_tick_with(10 * STEP, draws(0, 0, 0));
    assert_eq!(game.pipe_pair(0).0.get_pos(), (78, 0));
    assert_eq!(game.progress(), 2);
}

#[test]
fn the_round_says_once_that_it_is_finished() {
    let mut game = with_first_pair(weightless(), canvas(), draws(3, 4, 1));
    assert_eq!(game.config().max_pipe_num, 1);
    assert_eq!(game.pipe_count(), 1);
    for step in 1..=85 {
        assert_eq!(game.on_tick_with(STEP, draws(0, 0, 0)), None, "step {}", step);
        assert_eq!(game.pipe_count(), 1);
        assert_eq!(game.pipe_pair(0).0.get_pos(), (80 - step, 0));
        assert!(!game.is_finished());
    }
    assert_eq!(game.pipe_pair(0).0.bounding_box().right, 0);
    assert_eq!(game.on_tick_with(STEP, draws(0, 0, 0)), Some(LifecycleSignal::RoundFinished));
    assert_eq!(game.pipe_count(), 0);
    assert_eq!(game.generated(), 1);
    assert!(game.is_finished());
    assert_eq!(game.state(), State::Ready);
    for _ in 0..50 {
        assert_eq!(game.on_tick_with(STEP, draws(0, 0, 0)), None);
        assert_eq!(game.pipe_count(), 0);
        assert_eq!(game.generated(), 1);
    }
    assert_eq!(game.progress(), 86 + 50);
}

#[test]
fn a_fall_to_the_floor_begins_the_round_anew() {
    let near = GameConfig { pipe_width: 1, margin_base: 1, margin_range: 1, ..game_config() };
    let mut game = GamePage::with_config(near);
    game.on_canvas_resized_with(canvas(), draws(3, 4, 1));
    assert_eq!(game.next_pipe(), (11, 6, 1));
    game.on_tick_with(STEP, draws(0, 0, 0));
    assert_eq!((game.pipe_count(), game.generated(), game.progress()), (0, 0, 1));
    game.on_tick_with(STEP, draws(0, 0, 0));
    assert_eq!((game.pipe_count(), game.generated(), game.progress()), (1, 1, 0));
    let mut ticks = 2;
    while game.bird().fine_y() > -1_000_000 + 20_000 * (STEP as i64) {
        assert_eq!(game.on_tick_with(STEP, draws(0, 0, 0)), None);
        assert_eq!(game.state(), State::Ready);
        assert_eq!((game.pipe_count(), game.generated()), (1, 1));
        assert!(game.bird().get_pos().1 >= 0);
        ticks += 1;
        assert!(ticks < 100);
    }
    assert_eq!(game.bird().velocity(), -20_000);
    assert!(game.progress() > 0);
    assert_eq!(game.on_tick_with(STEP, draws(1, 2, 3)), None);
    assert_eq!(game.state(), State::Ready);
    assert_eq!(game.pipe_count(), 0);
    assert_eq!(game.generated(), 0);
    assert_eq!(game.progress(), 0);
    assert_eq!(game.bird().get_pos(), (20, 12));
    assert_eq!(game.bird().fine_y(), 12_000_000);
    assert_eq!(game.bird().velocity(), -20_000);
    assert_eq!(game.next_pipe(), (9, 2 + 2 % 11, 1));
    assert!(!game.is_finished());
    game.on_tick_with(STEP, draws(0, 0, 0));
    assert_eq!((game.pipe_count(), game.generated(), game.progress()), (0, 0, 1));
    game.on_tick_with(STEP, draws(0, 0, 0));
    assert_eq!((game.pipe_count(), game.generated()), (1, 1));
}

#[test]
fn a_round_begins_with_no_cell_scrolled() {
    let mut game = GamePage::new();
    game.on_canvas_resized(canvas());
    assert_eq!((game.state(), game.progress(), game.pipe_count(), game.generated()), (State::Ready, 0, 0, 0));
    for _ in 0..5 {
        game.on_tick(STEP);
    }
    assert_eq!(game.progress(), 5);
    game.reset();
    assert_eq!((game.state(), game.progress(), game.pipe_count(), game.generated()), (State::Ready, 0, 0, 0));
    assert_eq!(game.bird().get_pos(), (20, 12));
    game.on_tick(STEP - 1);
    assert_eq!((game.progress(), game.pipe_count()), (0, 0));
}

#[test]
fn hitting_the_ceiling_begins_the_round_anew() {
    let mut game = GamePage::with_config(GameConfig { max_pipe_num: 0, ..weightless() });
    game.on_canvas_resized_with(canvas(), draws(0, 0, 0));
    game.on_command(&flap(), ActionState::End);
    assert_eq!(game.bird().velocity(), 20_000);
    let mut signals = 0;
    for _ in 0..4 {
        if game.on_tick_with(100, draws(0, 0, 0)).is_some() {
            signals += 1;
        }
        assert_eq!(game.state(), State::Ready);
    }
    assert_eq!(signals, 1);
    assert_eq!(game.bird().get_pos(), (20, 20));
    assert!(game.is_finished());
    game.on_tick_with(50, draws(0, 0, 0));
    assert_eq!(game.bird().get_pos(), (20, 12));
    assert!(!game.is_finished());
    assert_eq!(game.progress(), 0);
    assert_eq!(game.on_tick_with(50, draws(0, 0, 0)), Some(LifecycleSignal::RoundFinished));
}

#[test]
fn hitting_a_pipe_begins_the_round_anew() {
    let game = with_first_pair(weightless(), canvas(), draws(3, 8, 1));
    assert_eq!(game.pipe_pair(0).0.get_size(), (6, 10));
    assert_eq!(game.pipe_pair(0).1.get_pos(), (80, 21));
    let mut game = with_first_pair(GameConfig { up_velocity: 0, ..weightless() }, canvas(), draws(0, 11, 1));
    assert_eq!(game.pipe_pair(0).0.get_size(), (6, 13));
    game.on_command(&flap(), ActionState::End);
    for step in 1..=55 {
        game.on_tick_with(STEP, draws(0, 0, 0));
        assert_eq!(game.pipe_pair(0).0.get_pos(), (80 - step, 0));
        assert_eq!(game.generated(), 1);
    }
    assert_eq!(game.pipe_pair(0).0.bounding_box().left, 25);
    assert!(game.progress() > 0);
    game.on_tick_with(STEP, draws(0, 0, 0));
    assert_eq!(game.pipe_count(), 0);
    assert_eq!(game.generated(), 0);
    assert_eq!(game.state(), State::Ready);
    assert_eq!(game.progress(), 0);
}

#[test]
fn only_the_release_of_up_is_a_flap() {
    let mut game = GamePage::new();
    game.on_canvas_resized_with(canvas(), draws(0, 0, 0));
    assert_eq!(game.on_command(&flap(), ActionState::Start), None);
    assert_eq!(game.on_command(&flap(), ActionState::Repeat), None);
    assert_eq!(game.on_command(&Command::Game(GameAction::Down), ActionState::End), None);
    assert_eq!(game.on_command(&Command::Home(HomeAction::Up), ActionState::End), None);
    assert_eq!(game.on_command(&Command::Tick, ActionState::End), None);
    assert_eq!(game.bird().velocity(), 0);
    assert_eq!(game.on_command(&flap(), ActionState::End), None);
    assert_eq!(game.bird().velocity(), 20_000);
    assert_eq!(game.on_command(&flap(), ActionState::End), None);
    assert_eq!(game.bird().velocity(), 20_000);
    assert_eq!(game.bird().get_pos(), (20, 12));
}

#[test]
fn an_action_is_taken_before_the_tick() {
    let mut game = GamePage::new();
    game.on_canvas_resized_with(canvas(), draws(0, 0, 0));
    let action = Action { command: flap(), state: ActionState::End };
    assert_eq!(game.update_with(&action, 10, draws(0, 0, 0)), None);
    assert_eq!(game.bird().velocity(), 20_000 - 700);
    assert_eq!(game.bird().fine_y(), 12_000_000 + 19_300 * 10);
    assert_eq!(game.update(&Action::new(Command::Tick), 10), None);
    assert_eq!(game.bird().velocity(), 20_000 - 1400);
}

#[test]
fn the_screen_shows_the_bird_and_then_the_pipes() {
    let shown = Rect { x: 2, y: 1, width: 80, height: 24 };
    let mut game = GamePage::with_config(weightless());
    game.on_canvas_resized_with(shown, draws(3, 4, 1));
    let sprites = game.render_entities();
    assert_eq!(sprites.len(), 1);
    assert_eq!(sprites[0].area, Rect { x: 22, y: 1 + 24 - 1 - 15, width: 5, height: 4 });
    assert_eq!(sprites[0].layers.len(), 2);
    assert_eq!(sprites[0].layers[1][1], " O,O ");
    assert_eq!(sprites[0].colors, vec![Some(Color::LightBlue), Some(Color::Yellow)]);
    assert!(sprites[0].ignore_whitespace);

    let mut game = with_first_pair(weightless(), shown, draws(3, 4, 1));
    assert_eq!(game.render_entities().len(), 1);
    game.on_tick_with(STEP, draws(0, 0, 0));
    let sprites = game.render_entities();
    assert_eq!(sprites.len(), 3);
    assert_eq!(sprites[1].area, Rect { x: 81, y: 1 + 24 - 6, width: 1, height: 6 });
    assert_eq!(sprites[1].layers, vec![vec!["\u{2588}".to_string(), "\u{2588}".to_string(), "|".to_string(), "|".to_string(), "|".to_string(), "|".to_string()]]);
    assert_eq!(sprites[2].area, Rect { x: 81, y: 1, width: 1, height: 7 });
    assert_eq!(sprites[2].colors, vec![Some(Color::LightGreen)]);
    assert!(!sprites[1].ignore_whitespace && !sprites[2].ignore_whitespace);
    for _ in 0..5 {
        game.on_tick_with(STEP, draws(0, 0, 0));
    }
    let sprites = game.render_entities();
    assert_eq!(sprites[1].area, Rect { x: 76, y: 19, width: 6, height: 6 });
    assert_eq!(sprites[2].area, Rect { x: 76, y: 1, width: 6, height: 7 });
}

#[test]
fn a_round_can_be_begun_anew_at_any_time() {
    let mut game = with_first_pair(weightless(), canvas(), draws(3, 4, 1));
    game.on_tick_with(STEP, draws(0, 0, 0));
    assert_eq!((game.generated(), game.progress()), (1, 1));
    game.reset_with(draws(1, 1, 1));
    assert_eq!((game.state(), game.pipe_count(), game.generated(), game.progress()), (State::Ready, 0, 0, 0));
    assert_eq!(game.next_pipe(), (9, 3, 24));
    game.reset();
    assert_eq!((game.state(), game.pipe_count(), game.generated(), game.progress()), (State::Ready, 0, 0, 0));
}

#[test]
fn the_second_pair_keeps_its_distance() {
    let mut game = GamePage::with_config(GameConfig { max_pipe_num: 2, ..weightless() });
    game.on_canvas_resized_with(canvas(), draws(3, 4, 1));
    for _ in 1..=29 {
        game.on_tick_with(STEP, draws(0, 0, 0));
        assert_eq!(game.pipe_count(), 0);
    }
    game.on_tick_with(STEP, draws(3, 4, 2));
    assert_eq!(game.pipe_count(), 1);
    assert_eq!(game.next_pipe(), (11, 6, 25));
    for step in 1..=30 {
        assert_eq!(game.pipe_count(), 1);
        assert_eq!(game.progress(), step - 1);
        game.on_tick_with(STEP, draws(0, 0, 0));
    }
    assert_eq!(game.progress(), 30);
    assert_eq!(game.pipe_count(), 1);
    game.on_tick_with(STEP, draws(0, 5, 0));
    assert_eq!(game.pipe_count(), 2);
    assert_eq!(game.generated(), 2);
    assert_eq!(game.progress(), 0);
    assert_eq!(game.pipe_pair(0).0.get_pos(), (80 - 31, 0));
    assert_eq!(game.pipe_pair(1).0.get_pos(), (80, 0));
    assert_eq!(game.pipe_pair(1).0.get_size(), (6, 6));
    assert_eq!(game.pipe_pair(1).1.get_pos(), (80, 17));
    assert_eq!(game.pipe_pair(1).1.get_size(), (6, 7));
    let mut signals = 0;
    for _ in 0..200 {
        if game.on_tick_with(STEP, draws(0, 0, 0)).is_some() {
            signals += 1;
        }
    }
    assert_eq!(game.generated(), 2);
    assert_eq!(game.pipe_count(), 0);
    assert_eq!(signals, 1);
}

#[test]
fn a_config_must_leave_something_to_draw() {
    assert!(game_config().is_valid());
    assert!(!GameConfig { gap_range: 0, ..game_config() }.is_valid());
    assert!(!GameConfig { gap_range: 11, ..game_config() }.is_valid());
    assert!(!GameConfig { margin_range: 0, ..game_config() }.is_valid());
    assert!(!GameConfig { margin_base: 65535, ..game_config() }.is_valid());
    assert!(GameConfig { gap_base: 65534, gap_range: 1, ..game_config() }.is_valid());
    assert!(!GameConfig { pipe_width: 0, ..game_config() }.is_valid());
    assert!(GameConfig { pipe_width: 1, ..game_config() }.is_valid());
}
