//! The numbers and the art that the program is built with.

pub mod background;
pub mod game;
pub mod title;
