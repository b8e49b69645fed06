//! The game: a bird under gravity, pipes that scroll in from the right, and
//! the round that ends when the two meet.

pub mod bird;
pub mod boundary;
pub mod object;
pub mod pipes;
pub mod round;
pub mod sprite;

use std::collections::VecDeque;
use vstd::prelude::*;
use vstd::string::*;
use crate::action::{Action, ActionState, Command, GameAction};
use crate::constants::game::{
    bird_colors, bird_paints, bird_texts, game_config, pipe_color, BIRD_BODY, BIRD_FACE,
};
use crate::layout::Rect;
use crate::pages::game::bird::{Bird, BirdView};
use crate::pages::game::boundary::{entity_of, Boundary};
use crate::pages::game::object::{collides_with, EntityView, Object};
use crate::pages::game::pipes::{
    fit_gap, generate_pipe_string, lower_pipe_height, rand_in, repeat_glyph, upper_pipe_height,
    Draws,
};
use crate::pages::game::round::{
    ceiling_of, floor_of, lemma_sprites_push, pairs_well_formed, pipe_pair, pipes_of,
    scrolled_pipes, sprites_of, GameConfig, GameView, LifecycleSignal, State,
};
use crate::pages::game::sprite::{clip_layers, Sprite, SpriteView};

verus! {

/// The game.
pub struct GamePage {
    state: State,
    config: GameConfig,
    canvas: Rect,
    bird: Bird,
    boundaries: Vec<Boundary>,
    pipes: VecDeque<(Boundary, Boundary)>,
    elapsed: u32,
    progress: u32,
    next_gap: u16,
    next_height: u16,
    next_margin: u16,
    generated: u16,
    finished: bool,
}

/// The pairs of pipes `pipes` as values.
pub open spec fn pairs_view(pipes: Seq<(Boundary, Boundary)>) -> Seq<(EntityView, EntityView)> {
    pipes.map_values(|pair: (Boundary, Boundary)| (pair.0.entity(), pair.1.entity()))
}

/// The things `things` as values.
pub open spec fn things_view(things: Seq<Boundary>) -> Seq<EntityView> {
    things.map_values(|thing: Boundary| thing.entity())
}

/// The bird of a game that has not begun.
pub open spec fn bird_at_rest(config: GameConfig) -> BirdView {
    BirdView {
        entity: entity_of(seq![BIRD_BODY@, BIRD_FACE@], bird_paints(), 0, 0),
        fine_y: 0,
        velocity: 0,
        velocity_limit: config.velocity_limit as nat,
        paused: false,
    }
}

/// The game that has not begun: `Idle`, with a canvas without cells.
pub open spec fn game_at_rest(config: GameConfig) -> GameView {
    GameView {
        state: State::Idle,
        config,
        canvas: Rect { x: 0, y: 0, width: 0, height: 0 },
        bird: bird_at_rest(config),
        boundaries: Seq::empty(),
        pipes: Seq::empty(),
        elapsed: 0,
        progress: 0,
        next_gap: 0,
        next_height: 0,
        next_margin: 0,
        generated: 0,
        finished: false,
    }
}

impl View for GamePage {
    type V = GameView;

    closed spec fn view(&self) -> GameView {
        GameView {
            state: self.state,
            config: self.config,
            canvas: self.canvas,
            bird: self.bird@,
            boundaries: things_view(self.boundaries@),
            pipes: pairs_view(self.pipes@),
            elapsed: self.elapsed,
            progress: self.progress,
            next_gap: self.next_gap,
            next_height: self.next_height,
            next_margin: self.next_margin,
            generated: self.generated,
            finished: self.finished,
        }
    }
}

impl GamePage {
    /// Holds of every game: its numbers leave something to draw, its canvas
    /// has numbers for all its cells, and while it is `Ready` it has its
    /// floor, its ceiling and the height of the next pipe.
    #[verifier::type_invariant]
    pub closed spec fn well_formed(self) -> bool {
        self@.well_formed()
    }

    /// The game with the numbers that it is usually played with, not yet
    /// begun.
    pub fn new() -> (game: GamePage)
        ensures
            game@ == game_at_rest(crate::constants::game::standard_config()),
            game@.well_formed(),
    {
        GamePage::with_config(game_config())
    }

    /// The game with the numbers `config`, not yet begun.
    pub fn with_config(config: GameConfig) -> (game: GamePage)
        requires
            config.valid(),
        ensures
            game@ == game_at_rest(config),
            game@.well_formed(),
    {
        let game = GamePage {
            state: State::Idle,
            config,
            canvas: Rect::new(0, 0, 0, 0),
            bird: Bird::new(bird_texts(), bird_colors(), 0, 0, config.velocity_limit),
            boundaries: Vec::new(),
            pipes: VecDeque::new(),
            elapsed: 0,
            progress: 0,
            next_gap: 0,
            next_height: 0,
            next_margin: 0,
            generated: 0,
            finished: false,
        };
        proof {
            assert(game@.boundaries =~= Seq::<EntityView>::empty());
            assert(game@.pipes =~= Seq::<(EntityView, EntityView)>::empty());
        }
        game
    }

    /// Takes the rectangle of the screen in which the canvas is shown.
    fn set_canvas(&mut self, canvas: Rect)
        ensures
            final(self)@ == (GameView {
                canvas: Rect::clamped(canvas.x, canvas.y, canvas.width, canvas.height),
                ..old(self)@
            }),
            final(self)@.canvas.in_range(),
    {
        proof {
            use_type_invariant(&*self);
        }
        self.canvas = Rect::new(canvas.x, canvas.y, canvas.width, canvas.height);
    }

    /// Makes the next pair of pipes from the lots `d`.
    fn sample_next_pipe(&mut self, d: Draws)
        ensures
            final(self)@ == old(self)@.sampled(d),
            final(self)@.next_height >= 2,
    {
        proof {
            use_type_invariant(&*self);
        }
        let gap = rand_in(self.config.gap_base, self.config.gap_range, d.gap);
        let next_gap = fit_gap(self.canvas.height, gap);
        self.next_gap = next_gap;
        self.next_height = lower_pipe_height(self.canvas.height, next_gap, d.height);
        self.next_margin = rand_in(self.config.margin_base, self.config.margin_range, d.margin);
        self.progress = 0;
    }

    /// Begins the round anew, whatever state it was in, the first pair of
    /// pipes made from the lots `d`.
    fn restart(&mut self, d: Draws)
        ensures
            final(self)@ == old(self)@.restarted(d),
            final(self)@.well_formed(),
    {
        proof {
            use_type_invariant(&*self);
        }
        self.finished = false;
        self.bird.place(self.config.bird_initial_x, self.canvas.height / 2);
        let boundary_string = repeat_glyph('-', self.canvas.width);
        let floor_layers: Vec<&str> = vec![boundary_string.as_str()];
        let ceiling_layers: Vec<&str> = vec![boundary_string.as_str()];
        let floor_colors: Vec<Option<crate::style::Color>> = vec![None];
        let ceiling_colors: Vec<Option<crate::style::Color>> = vec![None];
        proof {
            assert(floor_layers.deep_view() =~= seq![boundary_string@]);
            assert(ceiling_layers.deep_view() =~= seq![boundary_string@]);
            assert(floor_colors@ =~= seq![None::<crate::style::Color>]);
            assert(ceiling_colors@ =~= seq![None::<crate::style::Color>]);
        }
        let floor = Boundary::new(floor_layers, floor_colors, 0, -1);
        let ceiling = Boundary::new(ceiling_layers, ceiling_colors, 0, self.canvas.height as i32);
        assert(floor.entity() == floor_of(self.canvas));
        assert(ceiling.entity() == ceiling_of(self.canvas));
        let mut boundaries: Vec<Boundary> = Vec::new();
        boundaries.push(floor);
        boundaries.push(ceiling);
        assert(things_view(boundaries@) =~= seq![floor_of(self.canvas), ceiling_of(self.canvas)]);
        self.boundaries = boundaries;
        self.pipes = VecDeque::new();
        assert(pairs_view(self.pipes@) =~= Seq::<(EntityView, EntityView)>::empty());
        self.elapsed = 0;
        self.generated = 0;
        self.sample_next_pipe(d);
        self.state = State::Ready;
        proof {
            use_type_invariant(&*self);
        }
    }

    /// Begins the round anew, the first pair of pipes made from the lots
    /// `d`.
    pub fn reset_with(&mut self, d: Draws)
        ensures
            final(self)@ == old(self)@.restarted(d),
            final(self)@.well_formed(),
    {
        self.restart(d);
    }

    /// Begins the round anew, the first pair of pipes drawn by lot.
    pub fn reset(&mut self)
        ensures
            exists|d: Draws| final(self)@ == old(self)@.restarted(d),
            final(self)@.well_formed(),
    {
        let d = Draws::random();
        self.restart(d);
    }

    /// Lets the next pair of pipes come in at the right edge.
    fn generate_pipe(&mut self)
        requires
            old(self)@.next_height >= 2,
            old(self)@.generated < old(self)@.config.max_pipe_num,
        ensures
            final(self)@ == (GameView {
                pipes: old(self)@.pipes.push(
                    pipe_pair(
                        old(self)@.config.pipe_width,
                        old(self)@.canvas,
                        old(self)@.next_gap,
                        old(self)@.next_height,
                    ),
                ),
                generated: (old(self)@.generated + 1) as u16,
                ..old(self)@
            }),
            final(self)@.pipes.last().0.well_formed(),
            final(self)@.pipes.last().1.well_formed(),
    {
        proof {
            use_type_invariant(&*self);
        }
        let pipe_width = self.config.pipe_width;
        let gap_height = self.next_gap;
        let pipe_x: i32 = self.canvas.width as i32;
        let lower_pipe_height = self.next_height;
        let upper_pipe_height = upper_pipe_height(
            self.canvas.height,
            gap_height,
            lower_pipe_height,
        );
        let upper_pipe_y: i32 = lower_pipe_height as i32 + gap_height as i32;
        let lower_string = generate_pipe_string(pipe_width, lower_pipe_height, true);
        let upper_string = generate_pipe_string(pipe_width, upper_pipe_height, false);
        let lower_layers: Vec<&str> = vec![lower_string.as_str()];
        let upper_layers: Vec<&str> = vec![upper_string.as_str()];
        let lower_colors: Vec<Option<crate::style::Color>> = vec![pipe_color()];
        let upper_colors: Vec<Option<crate::style::Color>> = vec![pipe_color()];
        proof {
            assert(lower_layers.deep_view() =~= seq![lower_string@]);
            assert(upper_layers.deep_view() =~= seq![upper_string@]);
            assert(lower_colors@ =~= seq![crate::constants::game::pipe_paint()]);
            assert(upper_colors@ =~= seq![crate::constants::game::pipe_paint()]);
        }
        let lower_pipe = Boundary::new(lower_layers, lower_colors, pipe_x, 0);
        let upper_pipe = Boundary::new(upper_layers, upper_colors, pipe_x, upper_pipe_y);
        let ghost before = self.pipes@;
        assert((lower_pipe.entity(), upper_pipe.entity()) == pipe_pair(
            self.config.pipe_width,
            self.canvas,
            self.next_gap,
            self.next_height,
        ));
        let mut pipes: VecDeque<(Boundary, Boundary)> = VecDeque::new();
        proof {
            assert(pairs_view(pipes@) =~= Seq::<(EntityView, EntityView)>::empty());
        }
        core::mem::swap(&mut self.pipes, &mut pipes);
        pipes.push_back((lower_pipe, upper_pipe));
        proof {
            assert(pairs_view(pipes@) =~= pairs_view(before).push(
                (lower_pipe.entity(), upper_pipe.entity()),
            ));
            assert(pairs_well_formed(pairs_view(pipes@))) by {
                assert forall|i: int| 0 <= i < pipes@.len() implies (#[trigger] pairs_view(
                    pipes@,
                )[i]).0.well_formed() && pairs_view(pipes@)[i].1.well_formed() by {
                    if i < before.len() {
                        assert(pairs_view(pipes@)[i] == pairs_view(before)[i]);
                    }
                }
            }
        }
        self.pipes = pipes;
        self.generated = self.generated + 1;
    }

    /// Moves every pair of pipes one cell to the left and drops those that
    /// have left the canvas.
    fn scroll_pipes(&mut self)
        ensures
            final(self)@ == (GameView {
                pipes: scrolled_pipes(old(self)@.pipes, old(self)@.canvas),
                ..old(self)@
            }),
    {
        proof {
            use_type_invariant(&*self);
        }
        let ghost all = pairs_view(self.pipes@);
        let canvas = self.canvas;
        let mut waiting: VecDeque<(Boundary, Boundary)> = VecDeque::new();
        let mut moved: VecDeque<(Boundary, Boundary)> = VecDeque::new();
        proof {
            assert(pairs_view(waiting@) =~= Seq::<(EntityView, EntityView)>::empty());
        }
        core::mem::swap(&mut self.pipes, &mut waiting);
        let mut done: usize = 0;
        let total = waiting.len();
        proof {
            assert(all.take(0) =~= Seq::<(EntityView, EntityView)>::empty());
            assert(pairs_view(moved@) =~= Seq::<(EntityView, EntityView)>::empty());
            assert(all.skip(0) =~= all);
        }
        while done < total
            invariant
                done <= total,
                total == all.len(),
                pairs_well_formed(all),
                pairs_view(waiting@) == all.skip(done as int),
                pairs_view(moved@) == scrolled_pipes(all.take(done as int), canvas),
                pairs_well_formed(pairs_view(moved@)),
            decreases total - done,
        {
            let ghost rest = waiting@;
            let ghost moved_before = moved@;
            assert(pairs_view(rest).len() == total - done);
            let popped = waiting.pop_front();
            let mut pair = popped.unwrap();
            proof {
                assert(pairs_view(rest)[0] == all[done as int]);
                assert((pair.0.entity(), pair.1.entity()) == all[done as int]);
                assert(pairs_view(waiting@) =~= all.skip(done + 1)) by {
                    assert forall|k: int| 0 <= k < waiting@.len() implies pairs_view(
                        waiting@,
                    )[k] == all.skip(done + 1)[k] by {
                        assert(waiting@[k] == rest[k + 1]);
                        assert(pairs_view(rest)[k + 1] == all.skip(done as int)[k + 1]);
                    }
                }
                assert(all.take(done + 1).drop_last() =~= all.take(done as int));
                assert(all.take(done + 1).last() == all[done as int]);
            }
            pair.0.move_left(1);
            pair.1.move_left(1);
            if pair.0.visible(canvas) {
                moved.push_back(pair);
                proof {
                    assert(pairs_view(moved@) =~= pairs_view(moved_before).push(
                        (pair.0.entity(), pair.1.entity()),
                    ));
                    assert forall|i: int| 0 <= i < moved@.len() implies (#[trigger] pairs_view(
                        moved@,
                    )[i]).0.well_formed() && pairs_view(moved@)[i].1.well_formed() by {
                        if i < moved_before.len() {
                            assert(pairs_view(moved@)[i] == pairs_view(moved_before)[i]);
                        }
                    }
                }
            }
            done += 1;
        }
        proof {
            assert(all.take(total as int) =~= all);
        }
        self.pipes = moved;
    }

    /// Lets the pipes scroll for `dt` milliseconds.
    fn update_pipes(&mut self, dt: u32, d: Draws)
        requires
            old(self)@.state == State::Ready,
        ensures
            final(self)@ == old(self)@.scrolled(dt, d),
    {
        proof {
            use_type_invariant(&*self);
        }
        let elapsed: u32 = if self.elapsed as u64 + dt as u64 > u32::MAX as u64 {
            u32::MAX
        } else {
            self.elapsed + dt
        };
        assert(0 <= (elapsed as int) * (self.config.pipe_velocity as int) <= 0xffff_ffff
            * 0xffff_ffff) by (nonlinear_arith)
            requires
                0 <= elapsed <= 0xffff_ffff,
                0 <= self.config.pipe_velocity <= 0xffff_ffff,
        ;
        if elapsed as u64 * self.config.pipe_velocity as u64 >= 1000 {
            self.elapsed = 0;
            if self.progress < u32::MAX {
                self.progress = self.progress + 1;
            }
            self.scroll_pipes();
            proof {
                use_type_invariant(&*self);
            }
            if self.progress >= self.next_margin as u32 + self.config.pipe_width as u32
                && self.generated < self.config.max_pipe_num {
                self.generate_pipe();
                self.sample_next_pipe(d);
            }
        } else {
            self.elapsed = elapsed;
        }
    }

    /// Whether the bird meets the floor, the ceiling or a pipe.
    fn collides(&self) -> (b: bool)
        requires
            self@.boundaries.len() == 2,
        ensures
            b == self@.collided(),
    {
        assert(self@.boundaries[0] == self.boundaries@[0].entity());
        assert(self@.boundaries[1] == self.boundaries@[1].entity());
        if collides_with(&self.bird, &self.boundaries[0]) || collides_with(
            &self.bird,
            &self.boundaries[1],
        ) {
            return true;
        }
        let mut i: usize = 0;
        while i < self.pipes.len()
            invariant
                i <= self.pipes.len(),
                forall|k: int|
                    0 <= k < i ==> !self@.bird.entity.overlaps((#[trigger] self@.pipes[k]).0)
                        && !self@.bird.entity.overlaps(self@.pipes[k].1),
            decreases self.pipes.len() - i,
        {
            assert(self@.pipes[i as int] == (
                self.pipes@[i as int].0.entity(),
                self.pipes@[i as int].1.entity(),
            ));
            if collides_with(&self.bird, &self.pipes[i].0) || collides_with(
                &self.bird,
                &self.pipes[i].1,
            ) {
                return true;
            }
            i += 1;
        }
        false
    }

    /// Lets `dt` milliseconds pass, with the lots `d` for the pipes that
    /// are made meanwhile.
    pub fn on_tick_with(&mut self, dt: u32, d: Draws) -> (signal: Option<LifecycleSignal>)
        ensures
            final(self)@ == old(self)@.ticked(dt, d),
            signal == old(self)@.signal(dt, d),
            final(self)@.well_formed(),
    {
        proof {
            use_type_invariant(&*self);
        }
        match self.state {
            State::Idle => None,
            State::Ready => {
                self.bird.update(self.config.gravity, dt);
                self.update_pipes(dt, d);
                let mut signal: Option<LifecycleSignal> = None;
                if self.pipes.len() == 0 && self.generated >= self.config.max_pipe_num {
                    if !self.finished {
                        signal = Some(LifecycleSignal::RoundFinished);
                    }
                    self.finished = true;
                }
                proof {
                    use_type_invariant(&*self);
                }
                if self.collides() {
                    self.restart(d);
                }
                proof {
                    use_type_invariant(&*self);
                }
                signal
            },
            State::Dead => {
                self.restart(d);
                None
            },
        }
    }

    /// Lets `dt` milliseconds pass.
    pub fn on_tick(&mut self, dt: u32) -> (signal: Option<LifecycleSignal>)
        ensures
            exists|d: Draws|
                final(self)@ == old(self)@.ticked(dt, d) && signal == old(self)@.signal(dt, d),
            final(self)@.well_formed(),
    {
        let d = Draws::random();
        self.on_tick_with(dt, d)
    }

    /// Takes a command of the player.
    pub fn on_command(&mut self, command: &Command, phase: ActionState) -> (signal: Option<
        LifecycleSignal,
    >)
        ensures
            final(self)@ == old(self)@.commanded(*command, phase),
            signal is None,
            final(self)@.well_formed(),
    {
        proof {
            use_type_invariant(&*self);
        }
        if let Command::Game(command) = command {
            match command {
                GameAction::Up => {
                    if phase == ActionState::End {
                        self.bird.up(self.config.up_velocity);
                    }
                },
                _ => {},
            }
        }
        None
    }

    /// Takes the action `action` and then lets `dt` milliseconds pass, with
    /// the lots `d`.
    pub fn update_with(&mut self, action: &Action, dt: u32, d: Draws) -> (signal: Option<
        LifecycleSignal,
    >)
        ensures
            final(self)@ == old(self)@.commanded(action.command, action.state).ticked(dt, d),
            signal == old(self)@.commanded(action.command, action.state).signal(dt, d),
            final(self)@.well_formed(),
    {
        self.on_command(&action.command, action.state);
        self.on_tick_with(dt, d)
    }

    /// Takes the action `action` and then lets `dt` milliseconds pass.
    pub fn update(&mut self, action: &Action, dt: u32) -> (signal: Option<LifecycleSignal>)
        ensures
            exists|d: Draws|
                final(self)@ == old(self)@.commanded(action.command, action.state).ticked(dt, d)
                    && signal == old(self)@.commanded(action.command, action.state).signal(dt, d),
            final(self)@.well_formed(),
    {
        let d = Draws::random();
        self.update_with(action, dt, d)
    }

    /// Learns that the canvas is shown in the rectangle `canvas` of the
    /// screen, with the lots `d` for the first pair of pipes.
    pub fn on_canvas_resized_with(&mut self, canvas: Rect, d: Draws)
        ensures
            final(self)@ == old(self)@.resized(canvas, d),
            final(self)@.well_formed(),
    {
        proof {
            use_type_invariant(&*self);
        }
        if let State::Idle = self.state {
            self.set_canvas(canvas);
            self.restart(d);
        }
    }

    /// Learns that the canvas is shown in the rectangle `canvas` of the
    /// screen.
    pub fn on_canvas_resized(&mut self, canvas: Rect)
        ensures
            exists|d: Draws| final(self)@ == old(self)@.resized(canvas, d),
            final(self)@.well_formed(),
    {
        let d = Draws::random();
        self.on_canvas_resized_with(canvas, d);
    }
}

/// The sprites `sprites` as values.
pub open spec fn sprites_view(sprites: Seq<Sprite>) -> Seq<SpriteView> {
    sprites.map_values(|sprite: Sprite| sprite@)
}

impl GamePage {
    /// Adds what the screen shows of `object` to `sprites`, if it shows any
    /// of it.
    fn draw_object<T: Object>(&self, sprites: &mut Vec<Sprite>, object: &T, ignore_whitespace: bool)
        requires
            self@.canvas.in_range(),
        ensures
            sprites_view(final(sprites)@) == match object.entity().clipped(self@.canvas) {
                Some(sprite) => sprites_view(old(sprites)@).push(
                    SpriteView { ignore_whitespace, ..sprite },
                ),
                None => sprites_view(old(sprites)@),
            },
    {
        let ghost before = sprites@;
        match clip_layers(object, self.canvas) {
            Some(sprite) => {
                let mut sprite = sprite;
                sprite.ignore_whitespace = ignore_whitespace;
                sprites.push(sprite);
                assert(sprites_view(sprites@) =~= sprites_view(before).push(sprite@));
            },
            None => {},
        }
    }

    /// What the screen shows of the round: the bird first, then the pipes,
    /// each cut to the canvas, without what lies outside it.
    pub fn render_entities(&self) -> (sprites: Vec<Sprite>)
        ensures
            sprites_view(sprites@) == self@.rendered(),
    {
        proof {
            use_type_invariant(self);
        }
        let mut sprites: Vec<Sprite> = Vec::new();
        proof {
            assert(sprites_view(sprites@) =~= Seq::<SpriteView>::empty());
            assert(Seq::<EntityView>::empty().push(self@.bird.entity) =~= seq![self@.bird.entity]);
            lemma_sprites_push(Seq::<EntityView>::empty(), self@.bird.entity, self@.canvas, true);
        }
        self.draw_object(&mut sprites, &self.bird, true);
        let ghost head = sprites_view(sprites@);
        assert(head == sprites_of(seq![self@.bird.entity], self@.canvas, true));
        let mut i: usize = 0;
        proof {
            assert(self@.pipes.take(0) =~= Seq::<(EntityView, EntityView)>::empty());
            assert(head + Seq::<SpriteView>::empty() =~= head);
        }
        while i < self.pipes.len()
            invariant
                i <= self.pipes.len(),
                self@.canvas.in_range(),
                sprites_view(sprites@) == head + sprites_of(
                    pipes_of(self@.pipes.take(i as int)),
                    self@.canvas,
                    false,
                ),
            decreases self.pipes.len() - i,
        {
            let ghost done = self@.pipes.take(i as int);
            let ghost next = self@.pipes.take(i + 1);
            let ghost a = pipes_of(done);
            proof {
                assert(next.drop_last() =~= done);
                assert(next.last() == (
                    self.pipes@[i as int].0.entity(),
                    self.pipes@[i as int].1.entity(),
                ));
                lemma_sprites_push(a, next.last().0, self@.canvas, false);
                lemma_sprites_push(a.push(next.last().0), next.last().1, self@.canvas, false);
            }
            self.draw_object(&mut sprites, &self.pipes[i].0, false);
            let ghost s1 = sprites_view(sprites@);
            self.draw_object(&mut sprites, &self.pipes[i].1, false);
            proof {
                let t1 = sprites_of(a.push(next.last().0), self@.canvas, false);
                let t2 = sprites_of(pipes_of(next), self@.canvas, false);
                assert(s1 =~= head + t1);
                assert(sprites_view(sprites@) =~= head + t2);
            }
            i += 1;
        }
        proof {
            assert(self@.pipes.take(self.pipes.len() as int) =~= self@.pipes);
        }
        sprites
    }

    /// Where the round stands.
    pub fn state(&self) -> (s: State)
        ensures
            s == self@.state,
    {
        self.state
    }

    /// The numbers that the game is played with.
    pub fn config(&self) -> (c: GameConfig)
        ensures
            c == self@.config,
    {
        self.config
    }

    /// The rectangle of the screen in which the canvas is shown.
    pub fn canvas(&self) -> (c: Rect)
        ensures
            c == self@.canvas,
    {
        self.canvas
    }

    /// The bird.
    pub fn bird(&self) -> (b: &Bird)
        ensures
            b@ == self@.bird,
    {
        &self.bird
    }

    /// The number of pairs of pipes on the canvas.
    pub fn pipe_count(&self) -> (n: usize)
        ensures
            n == self@.pipes.len(),
    {
        self.pipes.len()
    }

    /// The `i`-th pair of pipes on the canvas, the oldest first.
    pub fn pipe_pair(&self, i: usize) -> (pair: (&Boundary, &Boundary))
        requires
            i < self@.pipes.len(),
        ensures
            (pair.0.entity(), pair.1.entity()) == self@.pipes[i as int],
    {
        (&self.pipes[i].0, &self.pipes[i].1)
    }

    /// The number of pairs that have come in this round.
    pub fn generated(&self) -> (n: u16)
        ensures
            n == self@.generated,
    {
        self.generated
    }

    /// The cells that the pipes have moved since the last pair came.
    pub fn progress(&self) -> (n: u32)
        ensures
            n == self@.progress,
    {
        self.progress
    }

    /// The gap of the next pair, the height of its lower pipe, and the
    /// distance that it keeps.
    pub fn next_pipe(&self) -> (next: (u16, u16, u16))
        ensures
            next == (self@.next_gap, self@.next_height, self@.next_margin),
    {
        (self.next_gap, self.next_height, self.next_margin)
    }

    /// Whether the round has said that it is finished.
    pub fn is_finished(&self) -> (b: bool)
        ensures
            b == self@.finished,
    {
        self.finished
    }
}

} // verus!
