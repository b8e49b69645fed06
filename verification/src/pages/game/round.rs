//! The round as a value, and what a tick, a command and a canvas do to it.
//!
//! A round is `Idle` until the canvas is known and `Ready` from then on.
//! When the bird meets the floor, the ceiling or a pipe, the round is over:
//! it is `Dead` for the moment and begins anew within the same tick.
//! When the last pair of pipes has left the canvas, the round says once
//! that it is finished.

use vstd::prelude::*;
use crate::action::{ActionState, Command, GameAction};
use crate::constants::game::pipe_paint;
use crate::layout::Rect;
use crate::pages::game::bird::BirdView;
use crate::pages::game::boundary::{entity_of, layers_of};
use crate::pages::game::object::{lemma_longest_row_uniform, lemma_single_layer, EntityView};
use crate::pages::game::pipes::{
    can_sample, fitted_gap, lemma_pipe_heights, lemma_pipe_text_rows, lower_height, pipe_rows,
    pipe_text, repeated, sampled_in, upper_height, Draws,
};
use crate::pages::game::sprite::SpriteView;
use crate::style::Color;

verus! {

/// The numbers that a game is played with.
#[derive(Clone, Copy, Debug, PartialEq, Eq, Structural)]
pub struct GameConfig {
    /// Gravity in cells per second per second.
    pub gravity: u32,
    /// The velocity of the bird after a flap, in thousandths of a cell per
    /// second.
    pub up_velocity: i32,
    /// The largest velocity of the bird, up or down.
    pub velocity_limit: u32,
    /// The width of a pipe in cells.
    pub pipe_width: u16,
    /// The speed of the pipes in cells per second.
    pub pipe_velocity: u32,
    /// The gap between two pipes of a pair is drawn from `gap_base -
    /// gap_range` up to, not including, `gap_base + gap_range`.
    pub gap_base: u16,
    pub gap_range: u16,
    /// The distance between two pairs of pipes is drawn from `margin_base -
    /// margin_range` up to, not including, `margin_base + margin_range`.
    pub margin_base: u16,
    pub margin_range: u16,
    /// The number of pairs of pipes of a round.
    pub max_pipe_num: u16,
    /// The column of the bird.
    pub bird_initial_x: u16,
}

impl GameConfig {
    /// Whether a game can be played with the numbers: gaps and distances
    /// can be drawn, and a pipe has a column at least.
    pub open spec fn valid(self) -> bool {
        &&& can_sample(self.gap_base, self.gap_range)
        &&& can_sample(self.margin_base, self.margin_range)
        &&& self.pipe_width >= 1
    }

    /// Whether a game can be played with the numbers.
    pub fn is_valid(&self) -> (b: bool)
        ensures
            b == self.valid(),
    {
        1 <= self.gap_range && self.gap_range <= self.gap_base && self.gap_base as u32
            + self.gap_range as u32 <= 0xffff && 1 <= self.margin_range && self.margin_range
            <= self.margin_base && self.margin_base as u32 + self.margin_range as u32 <= 0xffff
            && self.pipe_width >= 1
    }
}

/// Where a round stands.
#[derive(Clone, Copy, Debug, PartialEq, Eq, Structural)]
pub enum State {
    Idle,
    Ready,
    Dead,
}

/// What a round tells the program around it.
#[derive(Clone, Copy, Debug, PartialEq, Eq, Structural)]
pub enum LifecycleSignal {
    RoundFinished,
}

/// The time in milliseconds after which `dt` more have passed, as far as
/// times have numbers.
pub open spec fn later(elapsed: u32, dt: u32) -> u32 {
    if elapsed + dt > u32::MAX {
        u32::MAX
    } else {
        (elapsed + dt) as u32
    }
}

/// The count after `count`, as far as counts have numbers.
pub open spec fn next_count(count: u32) -> u32 {
    if count == u32::MAX {
        count
    } else {
        (count + 1) as u32
    }
}

/// The thing `e` one cell further left, as far as cells have numbers.
pub open spec fn moved_left(e: EntityView) -> EntityView {
    e.at(
        if e.x == i32::MIN {
            e.x
        } else {
            (e.x - 1) as i32
        },
        e.y,
    )
}

/// The pairs `pipes` after a step to the left: each pair one cell further
/// left, without the pairs whose first pipe is then no longer visible.
pub open spec fn scrolled_pipes(pipes: Seq<(EntityView, EntityView)>, canvas: Rect) -> Seq<
    (EntityView, EntityView),
>
    decreases pipes.len(),
{
    if pipes.len() == 0 {
        Seq::empty()
    } else {
        let before = scrolled_pipes(pipes.drop_last(), canvas);
        let pair = (moved_left(pipes.last().0), moved_left(pipes.last().1));
        if pair.0.visible_in(canvas) {
            before.push(pair)
        } else {
            before
        }
    }
}

/// Whether each pipe of the pairs `pipes` is a thing of the game.
pub open spec fn pairs_well_formed(pipes: Seq<(EntityView, EntityView)>) -> bool {
    forall|i: int|
        0 <= i < pipes.len() ==> (#[trigger] pipes[i]).0.well_formed() && pipes[i].1.well_formed()
}

/// The floor: a row of dashes as wide as the canvas, just below it.
pub open spec fn floor_of(canvas: Rect) -> EntityView {
    entity_of(seq![repeated('-', canvas.width as nat)], seq![None::<Color>], 0, -1i32)
}

/// The ceiling: a row of dashes as wide as the canvas, just above it.
pub open spec fn ceiling_of(canvas: Rect) -> EntityView {
    entity_of(
        seq![repeated('-', canvas.width as nat)],
        seq![None::<Color>],
        0,
        canvas.height as i32,
    )
}

/// The pair of pipes that comes in at the right edge of the canvas: the
/// lower pipe `lower` rows high from the bottom, the gap `gap` above it,
/// and the upper pipe above that.
pub open spec fn pipe_pair(width: u16, canvas: Rect, gap: u16, lower: u16) -> (
    EntityView,
    EntityView,
) {
    (
        entity_of(
            seq![pipe_text(width, lower, true)],
            seq![pipe_paint()],
            canvas.width as i32,
            0,
        ),
        entity_of(
            seq![pipe_text(width, upper_height(canvas.height, gap, lower), false)],
            seq![pipe_paint()],
            canvas.width as i32,
            (lower + gap) as i32,
        ),
    )
}

/// A round as a value.
pub struct GameView {
    pub state: State,
    pub config: GameConfig,
    /// The rectangle of the screen in which the canvas is shown.
    pub canvas: Rect,
    pub bird: BirdView,
    /// Floor and ceiling.
    pub boundaries: Seq<EntityView>,
    /// The pairs of pipes on the canvas, the oldest first; of each pair the
    /// lower pipe first.
    pub pipes: Seq<(EntityView, EntityView)>,
    /// The milliseconds since the pipes last moved.
    pub elapsed: u32,
    /// The cells that the pipes have moved since the last pair came.
    pub progress: u32,
    /// The gap of the next pair.
    pub next_gap: u16,
    /// The height of the lower pipe of the next pair.
    pub next_height: u16,
    /// The distance that the next pair keeps to the last one.
    pub next_margin: u16,
    /// The number of pairs that have come in this round.
    pub generated: u16,
    /// Whether the round has said that it is finished.
    pub finished: bool,
}

impl GameView {
    /// Holds of every round between two calls: its parts are what they
    /// should be; it is not `Dead`, since a round that is over begins anew
    /// at once; while it is `Ready` it has its floor, its ceiling and the
    /// height of the next pipe; and it has said that it is finished only if
    /// all its pairs have come and gone.
    pub open spec fn well_formed(self) -> bool {
        &&& self.config.valid()
        &&& self.canvas.in_range()
        &&& self.bird.well_formed()
        &&& self.state != State::Dead
        &&& self.finished ==> self.drained()
        &&& self.state == State::Ready ==> self.boundaries.len() == 2 && self.next_height >= 2
        &&& forall|i: int|
            0 <= i < self.boundaries.len() ==> (#[trigger] self.boundaries[i]).well_formed()
        &&& pairs_well_formed(self.pipes)
        &&& self.generated <= self.config.max_pipe_num
    }

    /// The round with the next pair of pipes made from the lots `d`: the gap
    /// drawn and fitted to the canvas, the height of the lower pipe, and the
    /// distance; the count of cells begins anew.
    pub open spec fn sampled(self, d: Draws) -> GameView {
        let gap = fitted_gap(
            self.canvas.height,
            sampled_in(self.config.gap_base, self.config.gap_range, d.gap) as u16,
        );
        GameView {
            next_gap: gap,
            next_height: lower_height(self.canvas.height, gap, d.height),
            next_margin: sampled_in(
                self.config.margin_base,
                self.config.margin_range,
                d.margin,
            ) as u16,
            progress: 0,
            ..self
        }
    }

    /// The round begun anew: the bird in its column at half the height of
    /// the canvas, floor and ceiling as wide as the canvas, no pipes, no
    /// pair counted, no cell scrolled, and the first pair made from the lots
    /// `d`.
    pub open spec fn restarted(self, d: Draws) -> GameView {
        GameView {
            state: State::Ready,
            bird: self.bird.placed(self.config.bird_initial_x, self.canvas.height / 2),
            boundaries: seq![floor_of(self.canvas), ceiling_of(self.canvas)],
            pipes: Seq::empty(),
            elapsed: 0,
            generated: 0,
            finished: false,
            ..self.sampled(d)
        }
    }

    /// Whether the time `elapsed`, in milliseconds, is enough for the pipes
    /// to move one cell.
    pub open spec fn step_due(self, elapsed: u32) -> bool {
        elapsed * self.config.pipe_velocity >= 1000
    }

    /// Whether the next pair of pipes is due once the pipes have moved
    /// `progress` cells.
    pub open spec fn pair_due(self, progress: u32) -> bool {
        progress >= self.next_margin + self.config.pipe_width && self.generated
            < self.config.max_pipe_num
    }

    /// The round after `dt` milliseconds of scrolling. Where the time since
    /// the last step is enough for one cell, the pipes move one cell to the
    /// left and those that have left the canvas go; if the next pair is due
    /// it comes in at the right edge, and the pair after it is made from the
    /// lots `d`. Else only the time is counted.
    pub open spec fn scrolled(self, dt: u32, d: Draws) -> GameView {
        let elapsed = later(self.elapsed, dt);
        if self.step_due(elapsed) {
            let progress = next_count(self.progress);
            let pipes = scrolled_pipes(self.pipes, self.canvas);
            let moved = GameView { elapsed: 0, progress, pipes, ..self };
            if self.pair_due(progress) {
                (GameView {
                    pipes: pipes.push(
                        pipe_pair(
                            self.config.pipe_width,
                            self.canvas,
                            self.next_gap,
                            self.next_height,
                        ),
                    ),
                    generated: (self.generated + 1) as u16,
                    ..moved
                }).sampled(d)
            } else {
                moved
            }
        } else {
            GameView { elapsed, ..self }
        }
    }

    /// Whether the bird meets the floor, the ceiling or a pipe.
    pub open spec fn collided(self) -> bool {
        ||| self.bird.entity.overlaps(self.boundaries[0])
        ||| self.bird.entity.overlaps(self.boundaries[1])
        ||| exists|i: int|
            0 <= i < self.pipes.len() && (self.bird.entity.overlaps((#[trigger] self.pipes[i]).0)
                || self.bird.entity.overlaps(self.pipes[i].1))
    }

    /// Whether all pairs of the round have come and gone.
    pub open spec fn drained(self) -> bool {
        self.pipes.len() == 0 && self.generated >= self.config.max_pipe_num
    }

    /// The round after the bird has fallen and the pipes have scrolled for
    /// `dt` milliseconds, before it is asked whether it is over.
    pub open spec fn advanced(self, dt: u32, d: Draws) -> GameView {
        (GameView {
            bird: self.bird.integrated(self.config.gravity as nat, dt as nat),
            ..self
        }).scrolled(dt, d)
    }

    /// The round as it stands in a tick of `dt` milliseconds once it has
    /// advanced and has noted whether all its pairs have come and gone,
    /// before it is asked whether the bird meets something.
    pub open spec fn noted(self, dt: u32, d: Draws) -> GameView {
        let advanced = self.advanced(dt, d);
        GameView { finished: advanced.finished || advanced.drained(), ..advanced }
    }

    /// The round after a tick of `dt` milliseconds. An `Idle` round stays as
    /// it is. A `Ready` one advances; it notes that it is finished once all
    /// its pairs have come and gone; and where the bird then meets
    /// something, it is over and begins anew. A round that is `Dead` begins
    /// anew.
    pub open spec fn ticked(self, dt: u32, d: Draws) -> GameView {
        match self.state {
            State::Idle => self,
            State::Ready => {
                if self.noted(dt, d).collided() {
                    self.noted(dt, d).restarted(d)
                } else {
                    self.noted(dt, d)
                }
            },
            State::Dead => self.restarted(d),
        }
    }

    /// What a tick of `dt` milliseconds tells the program: that the round is
    /// finished, the first time that all its pairs have come and gone.
    pub open spec fn signal(self, dt: u32, d: Draws) -> Option<LifecycleSignal> {
        if self.state == State::Ready && self.advanced(dt, d).drained() && !self.finished {
            Some(LifecycleSignal::RoundFinished)
        } else {
            None
        }
    }

    /// Whether the command `command` in the phase `phase` is a flap: the
    /// release of the key for `Up`.
    pub open spec fn is_flap(command: Command, phase: ActionState) -> bool {
        command == Command::Game(GameAction::Up) && phase == ActionState::End
    }

    /// The round after a command: a flap gives the bird its velocity
    /// upwards, any other command changes nothing.
    pub open spec fn commanded(self, command: Command, phase: ActionState) -> GameView {
        if GameView::is_flap(command, phase) {
            GameView { bird: self.bird.impulsed(self.config.up_velocity as int), ..self }
        } else {
            self
        }
    }

    /// The round once the canvas is known to be shown in the rectangle
    /// `canvas` of the screen: an `Idle` round takes the canvas and begins,
    /// any other stays as it is.
    pub open spec fn resized(self, canvas: Rect, d: Draws) -> GameView {
        if self.state == State::Idle {
            (GameView {
                canvas: Rect::clamped(canvas.x, canvas.y, canvas.width, canvas.height),
                ..self
            }).restarted(d)
        } else {
            self
        }
    }
}

/// The pipes of the pairs `pipes`, in order, of each pair the first pipe
/// and then the second.
pub open spec fn pipes_of(pipes: Seq<(EntityView, EntityView)>) -> Seq<EntityView>
    decreases pipes.len(),
{
    if pipes.len() == 0 {
        Seq::empty()
    } else {
        pipes_of(pipes.drop_last()).push(pipes.last().0).push(pipes.last().1)
    }
}

/// What the rectangle `canvas` of the screen shows of the things `things`,
/// in order, without the things of which it shows nothing; white space is
/// left out of their upper layers where `ignore_whitespace` holds.
pub open spec fn sprites_of(things: Seq<EntityView>, canvas: Rect, ignore_whitespace: bool) -> Seq<
    SpriteView,
>
    decreases things.len(),
{
    if things.len() == 0 {
        Seq::empty()
    } else {
        let before = sprites_of(things.drop_last(), canvas, ignore_whitespace);
        match things.last().clipped(canvas) {
            Some(sprite) => before.push(SpriteView { ignore_whitespace, ..sprite }),
            None => before,
        }
    }
}

/// One thing more adds what the screen shows of it, if it shows any of it.
pub proof fn lemma_sprites_push(
    things: Seq<EntityView>,
    thing: EntityView,
    canvas: Rect,
    ignore_whitespace: bool,
)
    ensures
        sprites_of(things.push(thing), canvas, ignore_whitespace) == match thing.clipped(canvas) {
            Some(sprite) => sprites_of(things, canvas, ignore_whitespace).push(
                SpriteView { ignore_whitespace, ..sprite },
            ),
            None => sprites_of(things, canvas, ignore_whitespace),
        },
{
    assert(things.push(thing).drop_last() =~= things);
    assert(things.push(thing).last() == thing);
}

impl GameView {
    /// What the screen shows of the round: the bird, with the white space
    /// of its upper layers left out, and after it the pipes.
    pub open spec fn rendered(self) -> Seq<SpriteView> {
        sprites_of(seq![self.bird.entity], self.canvas, true) + sprites_of(
            pipes_of(self.pipes),
            self.canvas,
            false,
        )
    }
}

/// A tick leaves no round `Dead`: a round that is over has begun anew when
/// the tick ends. An `Idle` round stays `Idle`, and any other is `Ready`.
pub proof fn lemma_never_dead(g: GameView, dt: u32, d: Draws)
    ensures
        g.ticked(dt, d).state != State::Dead,
        g.state == State::Idle ==> g.ticked(dt, d).state == State::Idle,
        g.state != State::Idle ==> g.ticked(dt, d).state == State::Ready,
{
}

/// A round begun anew is `Ready`, with the bird in its column at half the
/// height of the canvas, without pipes, with no pair counted and no cell
/// scrolled, and has not said that it is finished.
pub proof fn lemma_restarted(g: GameView, d: Draws)
    ensures
        g.restarted(d).state == State::Ready,
        g.restarted(d).bird.entity.x == g.config.bird_initial_x,
        g.restarted(d).bird.entity.y == g.canvas.height / 2,
        g.restarted(d).pipes.len() == 0,
        g.restarted(d).generated == 0,
        g.restarted(d).progress == 0,
        g.restarted(d).elapsed == 0,
        !g.restarted(d).finished,
        g.restarted(d).canvas == g.canvas,
        g.restarted(d).config == g.config,
{
}

/// Where the bird meets something, the tick ends with the round begun anew:
/// `Ready`, without pipes, with no pair counted and no cell scrolled.
pub proof fn lemma_collision_restarts(g: GameView, dt: u32, d: Draws)
    requires
        g.state == State::Ready,
        g.noted(dt, d).collided(),
    ensures
        g.ticked(dt, d) == g.noted(dt, d).restarted(d),
        g.ticked(dt, d).state == State::Ready,
        g.ticked(dt, d).pipes.len() == 0,
        g.ticked(dt, d).generated == 0,
        g.ticked(dt, d).progress == 0,
        !g.ticked(dt, d).finished,
{
}

/// A round says that it is finished only while it has not said so, and
/// has said so from then on until it begins anew.
pub proof fn lemma_finished_once(g: GameView, dt: u32, d: Draws)
    ensures
        g.finished ==> g.signal(dt, d) is None,
        g.signal(dt, d) is Some ==> g.ticked(dt, d).finished || g.ticked(dt, d) == g.noted(
            dt,
            d,
        ).restarted(d),
        g.signal(dt, d) is Some && g.ticked(dt, d).finished ==> forall|dt2: u32, d2: Draws|
            g.ticked(dt, d).signal(dt2, d2) is None,
{
}

/// A round says that it is finished on the tick in which its last pair
/// goes: where a `Ready` round still has a pair to come or to go before the
/// tick and has none after it has advanced, the tick gives the signal. If
/// the bird meets nothing in that tick, the round is what it has advanced
/// to, with the note that it has said so, and no later tick gives the
/// signal again.
pub proof fn lemma_finished_when_drained(g: GameView, dt: u32, d: Draws)
    requires
        g.well_formed(),
        g.state == State::Ready,
        !g.drained(),
        g.advanced(dt, d).drained(),
    ensures
        g.signal(dt, d) == Some(LifecycleSignal::RoundFinished),
        g.ticked(dt, d).state == State::Ready,
        !g.noted(dt, d).collided() ==> g.ticked(dt, d) == (GameView {
            finished: true,
            ..g.advanced(dt, d)
        }),
        !g.noted(dt, d).collided() ==> forall|dt2: u32, d2: Draws|
            g.ticked(dt, d).signal(dt2, d2) is None,
{
}

/// Any command but a flap leaves the round as it is, and a flap changes
/// nothing but the velocity of the bird.
pub proof fn lemma_command_changes_velocity_only(g: GameView, command: Command, phase: ActionState)
    ensures
        !GameView::is_flap(command, phase) ==> g.commanded(command, phase) == g,
        g.commanded(command, phase) == (GameView {
            bird: BirdView { velocity: g.commanded(command, phase).bird.velocity, ..g.bird },
            ..g
        }),
{
}

/// A pipe of some width, two rows high or more, is a thing as wide and as
/// high as it was made.
pub proof fn lemma_pipe_size(
    width: u16,
    height: u16,
    reverse: bool,
    color: Option<Color>,
    x: i32,
    y: i32,
)
    requires
        width >= 1,
        height >= 2,
    ensures
        ({
            let pipe = entity_of(seq![pipe_text(width, height, reverse)], seq![color], x, y);
            &&& pipe.width == width
            &&& pipe.height == height
            &&& pipe.layers == seq![pipe_rows(width, height, reverse)]
            &&& pipe.well_formed()
        }),
{
    let text = pipe_text(width, height, reverse);
    let rows = pipe_rows(width, height, reverse);
    lemma_pipe_text_rows(width, height, reverse);
    assert(layers_of(seq![text]) =~= seq![rows]);
    lemma_single_layer(rows);
    lemma_longest_row_uniform(rows, width as nat);
}

/// The pair of pipes made for a canvas of four rows or more, whatever was
/// drawn: both pipes are two rows high or more, and the lower pipe, the gap
/// and the upper pipe fill the height of the canvas exactly. This holds in
/// particular of every canvas of ten rows or more.
pub proof fn lemma_pipe_pair_fills_canvas(width: u16, canvas: Rect, gap_drawn: u16, draw: u16)
    requires
        width >= 1,
        canvas.height >= 4,
    ensures
        ({
            let gap = fitted_gap(canvas.height, gap_drawn);
            let lower = lower_height(canvas.height, gap, draw);
            let pair = pipe_pair(width, canvas, gap, lower);
            &&& pair.0.height >= 2
            &&& pair.1.height >= 2
            &&& pair.0.height + gap + pair.1.height == canvas.height
            &&& pair.0.height == lower
            &&& pair.0.width == width
            &&& pair.1.width == width
            &&& pair.0.y == 0
            &&& pair.1.y == pair.0.height + gap
            &&& pair.1.y + pair.1.height == canvas.height
            &&& canvas.height >= gap_drawn + 4 ==> gap == gap_drawn
        }),
{
    let gap = fitted_gap(canvas.height, gap_drawn);
    let lower = lower_height(canvas.height, gap, draw);
    let upper = upper_height(canvas.height, gap, lower);
    lemma_pipe_heights(canvas.height, gap_drawn, draw);
    lemma_pipe_size(width, lower, true, pipe_paint(), canvas.width as i32, 0);
    lemma_pipe_size(width, upper, false, pipe_paint(), canvas.width as i32, (lower + gap) as i32);
}

/// What `sampled` makes of the lots is a pair that fills the canvas: on a
/// canvas of four rows or more the pair that comes next has pipes of two
/// rows or more that fill the height of the canvas together with the gap.
pub proof fn lemma_sampled_pair_fills_canvas(g: GameView, d: Draws)
    requires
        g.config.valid(),
        g.canvas.height >= 4,
    ensures
        ({
            let s = g.sampled(d);
            let pair = pipe_pair(s.config.pipe_width, s.canvas, s.next_gap, s.next_height);
            &&& pair.0.height >= 2
            &&& pair.1.height >= 2
            &&& pair.0.height + s.next_gap + pair.1.height == s.canvas.height
            &&& g.config.gap_base - g.config.gap_range <= sampled_in(
                g.config.gap_base,
                g.config.gap_range,
                d.gap,
            ) < g.config.gap_base + g.config.gap_range
            &&& s.next_gap <= sampled_in(g.config.gap_base, g.config.gap_range, d.gap)
        }),
{
    let drawn = sampled_in(g.config.gap_base, g.config.gap_range, d.gap) as u16;
    lemma_pipe_pair_fills_canvas(g.config.pipe_width, g.canvas, drawn, d.height);
}

/// A step to the left leaves pipes what they are.
pub proof fn lemma_scrolled_pipes_well_formed(pipes: Seq<(EntityView, EntityView)>, canvas: Rect)
    requires
        pairs_well_formed(pipes),
    ensures
        pairs_well_formed(scrolled_pipes(pipes, canvas)),
        pipes.len() == 0 ==> scrolled_pipes(pipes, canvas).len() == 0,
    decreases pipes.len(),
{
    if pipes.len() > 0 {
        let init = pipes.drop_last();
        assert(pairs_well_formed(init)) by {
            assert forall|i: int| 0 <= i < init.len() implies (#[trigger] init[i]).0.well_formed()
                && init[i].1.well_formed() by {
                assert(init[i] == pipes[i]);
            }
        }
        lemma_scrolled_pipes_well_formed(init, canvas);
        let before = scrolled_pipes(init, canvas);
        let last = pipes[pipes.len() - 1];
        assert(last.0.well_formed() && last.1.well_formed());
        let after = scrolled_pipes(pipes, canvas);
        assert forall|i: int| 0 <= i < after.len() implies (#[trigger] after[i]).0.well_formed()
            && after[i].1.well_formed() by {
            if i < before.len() {
                assert(after[i] == before[i]);
            }
        }
    }
}

/// What holds of every round holds on: of a round begun anew, and of a
/// round after a tick, a command or a canvas.
pub proof fn lemma_well_formed_kept(
    g: GameView,
    dt: u32,
    d: Draws,
    command: Command,
    phase: ActionState,
    canvas: Rect,
)
    requires
        g.well_formed(),
    ensures
        g.restarted(d).well_formed(),
        g.ticked(dt, d).well_formed(),
        g.commanded(command, phase).well_formed(),
        g.resized(canvas, d).well_formed(),
{
    lemma_restart_well_formed(g, d);
    lemma_restart_well_formed(
        GameView {
            canvas: Rect::clamped(canvas.x, canvas.y, canvas.width, canvas.height),
            ..g
        },
        d,
    );
    if g.state == State::Ready {
        lemma_noted_well_formed(g, dt, d);
        lemma_restart_well_formed(g.noted(dt, d), d);
    }
}

/// A round can begin anew whenever its numbers, its canvas and its bird
/// are what they should be, and is then all that a round should be.
pub proof fn lemma_restart_well_formed(g: GameView, d: Draws)
    requires
        g.config.valid(),
        g.canvas.in_range(),
        g.bird.well_formed(),
    ensures
        g.restarted(d).well_formed(),
{
    let r = g.restarted(d);
    assert(layers_of(seq![repeated('-', g.canvas.width as nat)]).len() == 1);
    assert(r.boundaries[0] == floor_of(g.canvas));
    assert(r.boundaries[1] == ceiling_of(g.canvas));
    assert(floor_of(g.canvas).well_formed());
    assert(ceiling_of(g.canvas).well_formed());
}

/// A `Ready` round that has advanced and has noted whether it is finished
/// is all that a round should be.
pub proof fn lemma_noted_well_formed(g: GameView, dt: u32, d: Draws)
    requires
        g.well_formed(),
        g.state == State::Ready,
    ensures
        g.noted(dt, d).well_formed(),
        g.noted(dt, d).state == State::Ready,
{
    let flown = GameView { bird: g.bird.integrated(g.config.gravity as nat, dt as nat), ..g };
    assert(flown.bird.well_formed());
    lemma_scrolled_pipes_well_formed(g.pipes, g.canvas);
    let elapsed = later(g.elapsed, dt);
    if flown.step_due(elapsed) {
        let progress = next_count(g.progress);
        let pipes = scrolled_pipes(g.pipes, g.canvas);
        if flown.pair_due(progress) {
            let pair = pipe_pair(g.config.pipe_width, g.canvas, g.next_gap, g.next_height);
            lemma_pipe_size(
                g.config.pipe_width,
                g.next_height,
                true,
                pipe_paint(),
                g.canvas.width as i32,
                0,
            );
            lemma_pipe_size(
                g.config.pipe_width,
                upper_height(g.canvas.height, g.next_gap, g.next_height),
                false,
                pipe_paint(),
                g.canvas.width as i32,
                (g.next_height + g.next_gap) as i32,
            );
            let more = pipes.push(pair);
            assert forall|i: int| 0 <= i < more.len() implies (#[trigger] more[i]).0.well_formed()
                && more[i].1.well_formed() by {
                if i < pipes.len() {
                    assert(more[i] == pipes[i]);
                }
            }
        }
    }
}

} // verus!
