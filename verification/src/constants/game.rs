//! The numbers and the art of the game.
//!
//! Velocities are in thousandths of a cell per second, gravity in cells per
//! second per second, the speed of the pipes in cells per second.

use vstd::prelude::*;
use crate::pages::game::round::GameConfig;
use crate::style::Color;

verus! {

/// Gravity in cells per second per second.
pub const GRAVITY: u32 = 70;

/// The velocity of the bird after a flap.
pub const UP_VELOCITY: i32 = 20_000;

/// The largest velocity of the bird, up or down.
pub const VELOCITY_LIMIT: u32 = 20_000;

/// The width of a pipe in cells.
pub const PIPE_WIDTH: u16 = 6;

/// The speed of the pipes in cells per second.
pub const PIPE_VELOCITY: u32 = 12;

/// The middle of the range from which the gap of a pair of pipes is drawn.
pub const PIPE_GAP_BASE: u16 = 10;

/// How far that range reaches down, and how far up.
pub const PIPE_GAP_RANGE: u16 = 2;

/// The middle of the range from which the distance between two pairs of
/// pipes is drawn.
pub const PIPE_MARGIN_BASE: u16 = 25;

/// How far that range reaches down, and how far up.
pub const PIPE_MARGIN_RANGE: u16 = 2;

/// The number of pairs of pipes of a round.
pub const MAX_PIPE_NUM: u16 = 1;

/// The column of the bird.
pub const BIRD_INITIAL_X: u16 = 20;

/// The colour of the pipes.
pub open spec fn pipe_paint() -> Option<Color> {
    Some(Color::LightGreen)
}

/// The colour of the pipes.
pub fn pipe_color() -> (c: Option<Color>)
    ensures
        c == pipe_paint(),
{
    Some(Color::LightGreen)
}

/// The outline of the bird.
pub const BIRD_BODY: &'static str = r#"
 ^ ^
(   )
(   )
- - -
"#;

/// The face of the bird.
pub const BIRD_FACE: &'static str = r#"
    
 O,O 
     
 " " 
"#;

/// The layers of the bird, the outline below the face.
pub fn bird_texts() -> (texts: Vec<&'static str>)
    ensures
        texts.deep_view() == seq![BIRD_BODY@, BIRD_FACE@],
{
    let texts: Vec<&'static str> = vec![BIRD_BODY, BIRD_FACE];
    assert(texts.deep_view() =~= seq![BIRD_BODY@, BIRD_FACE@]);
    texts
}

/// The colours of the layers of the bird.
pub open spec fn bird_paints() -> Seq<Option<Color>> {
    seq![Some(Color::LightBlue), Some(Color::Yellow)]
}

/// The colours of the layers of the bird.
pub fn bird_colors() -> (colors: Vec<Option<Color>>)
    ensures
        colors@ == bird_paints(),
{
    vec![Some(Color::LightBlue), Some(Color::Yellow)]
}

/// The numbers that the game is played with.
pub open spec fn standard_config() -> GameConfig {
    GameConfig {
        gravity: GRAVITY,
        up_velocity: UP_VELOCITY,
        velocity_limit: VELOCITY_LIMIT,
        pipe_width: PIPE_WIDTH,
        pipe_velocity: PIPE_VELOCITY,
        gap_base: PIPE_GAP_BASE,
        gap_range: PIPE_GAP_RANGE,
        margin_base: PIPE_MARGIN_BASE,
        margin_range: PIPE_MARGIN_RANGE,
        max_pipe_num: MAX_PIPE_NUM,
        bird_initial_x: BIRD_INITIAL_X,
    }
}

/// The numbers that the game is played with.
pub fn game_config() -> (config: GameConfig)
    ensures
        config == standard_config(),
        config.valid(),
{
    GameConfig {
        gravity: GRAVITY,
        up_velocity: UP_VELOCITY,
        velocity_limit: VELOCITY_LIMIT,
        pipe_width: PIPE_WIDTH,
        pipe_velocity: PIPE_VELOCITY,
        gap_base: PIPE_GAP_BASE,
        gap_range: PIPE_GAP_RANGE,
        margin_base: PIPE_MARGIN_BASE,
        margin_range: PIPE_MARGIN_RANGE,
        max_pipe_num: MAX_PIPE_NUM,
        bird_initial_x: BIRD_INITIAL_X,
    }
}

} // verus!
