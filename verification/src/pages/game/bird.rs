//! The bird: a thing with a velocity, pulled down by gravity and pushed up
//! by the player.
//!
//! Time is counted in milliseconds and velocity in thousandths of a cell
//! per second, so that the height of the bird is kept in millionths of a
//! cell. Gravity is given in cells per second per second, which is the
//! change of velocity, in thousandths of a cell per second, in one
//! millisecond.

use vstd::prelude::*;
use vstd::string::*;
use crate::pages::game::boundary::{
    copy_colors, copy_layers, entity_of, measure, split_layers,
};
use crate::pages::game::object::{EntityView, Object};
use crate::style::Color;

verus! {

/// The parts of the height of the bird that make one cell.
pub const MICRO: i64 = 1_000_000;

/// The largest height, in millionths of a cell, that the bird can have, up
/// or down.
pub const HEIGHT_LIMIT: i64 = 2_147_483_647_000_000;

/// `a` divided by `b`, rounded towards zero.
pub open spec fn trunc_div(a: int, b: int) -> int
    recommends
        b > 0,
{
    if a >= 0 {
        a / b
    } else {
        -((-a) / b)
    }
}

/// `v`, or the nearer of `low` and `high` where `v` is not between them.
pub open spec fn clamp(v: int, low: int, high: int) -> int {
    if v > high {
        high
    } else if v < low {
        low
    } else {
        v
    }
}

/// The row of the cell in which the height `fine`, in millionths of a cell,
/// lies.
pub open spec fn cell_of(fine: int) -> i32 {
    trunc_div(fine, MICRO as int) as i32
}

/// The bird as a value.
pub struct BirdView {
    /// The bird as a thing of the game.
    pub entity: EntityView,
    /// The height of the bottom of the bird in millionths of a cell.
    pub fine_y: int,
    /// The velocity upwards in thousandths of a cell per second.
    pub velocity: int,
    /// The largest velocity, up or down, that gravity leaves the bird.
    pub velocity_limit: nat,
    /// Whether the bird is held where it is.
    pub paused: bool,
}

impl BirdView {
    /// Whether the bird is a thing of the game and stands in the row of its
    /// height.
    pub open spec fn well_formed(self) -> bool {
        &&& self.entity.well_formed()
        &&& -HEIGHT_LIMIT <= self.fine_y <= HEIGHT_LIMIT
        &&& self.entity.y == cell_of(self.fine_y)
    }

    /// The bird after `dt` milliseconds under the gravity `gravity`: unless
    /// it is paused, the velocity falls by `gravity * dt` and is brought back
    /// between the limits, and then the bird moves by the new velocity for
    /// the time `dt`, as far as heights have numbers.
    pub open spec fn integrated(self, gravity: nat, dt: nat) -> BirdView {
        if self.paused {
            self
        } else {
            let velocity = clamp(
                self.velocity - gravity * dt,
                -(self.velocity_limit as int),
                self.velocity_limit as int,
            );
            let fine_y = clamp(
                self.fine_y + velocity * dt,
                -(HEIGHT_LIMIT as int),
                HEIGHT_LIMIT as int,
            );
            BirdView {
                velocity,
                fine_y,
                entity: self.entity.at(self.entity.x, cell_of(fine_y)),
                ..self
            }
        }
    }

    /// The bird after an impulse to the velocity `target`: its velocity is
    /// `target`, or the limit where `target` is above it, whatever it was.
    pub open spec fn impulsed(self, target: int) -> BirdView {
        BirdView {
            velocity: if target > self.velocity_limit {
                self.velocity_limit as int
            } else {
                target
            },
            ..self
        }
    }

    /// The bird with its corner in the cell `(x, y)`.
    pub open spec fn placed(self, x: u16, y: u16) -> BirdView {
        BirdView { fine_y: y * MICRO, entity: self.entity.at(x as i32, y as i32), ..self }
    }
}

/// After a step of time the velocity lies between the limits, whatever the
/// gravity, the time and the velocity before.
pub proof fn lemma_velocity_clamp(bird: BirdView, gravity: nat, dt: nat)
    requires
        !bird.paused,
    ensures
        -bird.velocity_limit <= bird.integrated(gravity, dt).velocity <= bird.velocity_limit,
{
}

/// A step of time keeps a velocity that lay between the limits between
/// them, paused or not.
pub proof fn lemma_velocity_stays_clamped(bird: BirdView, gravity: nat, dt: nat)
    requires
        -bird.velocity_limit <= bird.velocity <= bird.velocity_limit,
    ensures
        -bird.velocity_limit <= bird.integrated(gravity, dt).velocity <= bird.velocity_limit,
{
}

/// An impulse sets the velocity and does not add to it: a second impulse to
/// the same velocity changes nothing.
pub proof fn lemma_impulse_overrides(bird: BirdView, target: int)
    ensures
        bird.impulsed(target).impulsed(target) == bird.impulsed(target),
        bird.impulsed(target).velocity == if target > bird.velocity_limit {
            bird.velocity_limit as int
        } else {
            target
        },
{
}

/// The bird.
#[derive(Debug)]
pub struct Bird {
    width: u16,
    height: u16,
    x: i32,
    y: i64,
    layers: Vec<Vec<String>>,
    colors: Vec<Option<Color>>,
    velocity: i64,
    velocity_limit: u32,
    paused: bool,
}

impl View for Bird {
    type V = BirdView;

    closed spec fn view(&self) -> BirdView {
        BirdView {
            entity: EntityView {
                width: self.width,
                height: self.height,
                x: self.x,
                y: cell_of(self.y as int),
                layers: self.layers.deep_view(),
                colors: self.colors@,
            },
            fine_y: self.y as int,
            velocity: self.velocity as int,
            velocity_limit: self.velocity_limit as nat,
            paused: self.paused,
        }
    }
}

impl Bird {
    /// Holds of every bird.
    #[verifier::type_invariant]
    pub closed spec fn well_formed(self) -> bool {
        self@.well_formed()
    }

    /// The bird that the texts `layers` draw, one layer each, in the colours
    /// `colors`, at rest with its corner at the cell `(x, y)`.
    pub fn new(
        layers: Vec<&str>,
        colors: Vec<Option<Color>>,
        x: u16,
        y: u16,
        velocity_limit: u32,
    ) -> (bird: Bird)
        requires
            layers.len() == colors.len(),
        ensures
            bird@ == (BirdView {
                entity: entity_of(layers.deep_view(), colors@, x as i32, y as i32),
                fine_y: y * MICRO,
                velocity: 0,
                velocity_limit: velocity_limit as nat,
                paused: false,
            }),
            bird@.well_formed(),
    {
        let layers = split_layers(&layers);
        let (width, height) = measure(&layers);
        Bird {
            width,
            height,
            x: x as i32,
            y: y as i64 * MICRO,
            layers,
            colors,
            velocity: 0,
            velocity_limit,
            paused: false,
        }
    }

    /// Lets `dt` milliseconds pass under the gravity `gravity`.
    pub fn update(&mut self, gravity: u32, dt: u32)
        ensures
            final(self)@ == old(self)@.integrated(gravity as nat, dt as nat),
            !old(self)@.paused ==> -final(self)@.velocity_limit <= final(self)@.velocity
                <= final(self)@.velocity_limit,
        no_unwind
    {
        proof {
            use_type_invariant(&*self);
        }
        if !self.paused {
            let limit: i128 = self.velocity_limit as i128;
            assert(0 <= (gravity as int) * (dt as int) <= 0xffff_ffff * 0xffff_ffff)
                by (nonlinear_arith)
                requires
                    0 <= gravity <= 0xffff_ffff,
                    0 <= dt <= 0xffff_ffff,
            ;
            let fall: i128 = (gravity as i128) * (dt as i128);
            let mut velocity: i128 = self.velocity as i128 - fall;
            if velocity > limit {
                velocity = limit;
            }
            if velocity < -limit {
                velocity = -limit;
            }
            assert(-0xffff_ffff * 0xffff_ffff <= (velocity as int) * (dt as int) <= 0xffff_ffff
                * 0xffff_ffff) by (nonlinear_arith)
                requires
                    -0xffff_ffff <= velocity <= 0xffff_ffff,
                    0 <= dt <= 0xffff_ffff,
            ;
            let mut y: i128 = self.y as i128 + velocity * (dt as i128);
            if y > HEIGHT_LIMIT as i128 {
                y = HEIGHT_LIMIT as i128;
            }
            if y < -(HEIGHT_LIMIT as i128) {
                y = -(HEIGHT_LIMIT as i128);
            }
            self.velocity = velocity as i64;
            self.y = y as i64;
        }
    }

    /// Gives the bird the velocity `velocity`, or the largest one that it
    /// can have where `velocity` is above that.
    pub fn up(&mut self, velocity: i32)
        ensures
            final(self)@ == old(self)@.impulsed(velocity as int),
        no_unwind
    {
        proof {
            use_type_invariant(&*self);
        }
        let velocity: i64 = velocity as i64;
        let limit: i64 = self.velocity_limit as i64;
        self.velocity = if velocity > limit { limit } else { velocity };
    }

    /// Holds the bird where it is.
    pub fn pause(&mut self)
        ensures
            final(self)@ == (BirdView { paused: true, ..old(self)@ }),
        no_unwind
    {
        proof {
            use_type_invariant(&*self);
        }
        self.paused = true;
    }

    /// Lets the bird go on.
    pub fn resume(&mut self)
        ensures
            final(self)@ == (BirdView { paused: false, ..old(self)@ }),
        no_unwind
    {
        proof {
            use_type_invariant(&*self);
        }
        self.paused = false;
    }

    /// The velocity upwards in thousandths of a cell per second.
    pub fn velocity(&self) -> (v: i64)
        ensures
            v == self@.velocity,
    {
        self.velocity
    }

    /// The height of the bottom of the bird in millionths of a cell.
    pub fn fine_y(&self) -> (y: i64)
        ensures
            y == self@.fine_y,
    {
        self.y
    }

    /// Whether the bird is held where it is.
    pub fn is_paused(&self) -> (p: bool)
        ensures
            p == self@.paused,
    {
        self.paused
    }

    /// Puts the bird with its corner in the cell `(x, y)`.
    pub fn place(&mut self, x: u16, y: u16)
        ensures
            final(self)@ == old(self)@.placed(x, y),
        no_unwind
    {
        proof {
            use_type_invariant(&*self);
        }
        self.x = x as i32;
        self.y = y as i64 * MICRO;
    }
}

impl Object for Bird {
    open spec fn entity(&self) -> EntityView {
        self@.entity
    }

    fn get_size(&self) -> (size: (u16, u16)) {
        (self.width, self.height)
    }

    fn get_pos(&self) -> (pos: (i32, i32)) {
        proof {
            use_type_invariant(self);
        }
        (self.x, (self.y / MICRO) as i32)
    }

    fn set_pos(&mut self, x: u16, y: u16)
        ensures
            final(self)@ == old(self)@.placed(x, y),
    {
        self.place(x, y);
    }

    fn get_layers(&self) -> (layers: Vec<Vec<String>>) {
        copy_layers(&self.layers)
    }

    fn get_colors(&self) -> (colors: Vec<Option<Color>>) {
        copy_colors(&self.colors)
    }
}

} // verus!
