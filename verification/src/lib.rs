//! A side-scrolling game for the terminal, as a library: a bird that falls
//! and flaps, pipes that scroll in from the right, and the round that ends
//! when the two meet; and beside the game, the table that turns key strokes
//! into commands.
//!
//! Everything here is plain computation on plain values. Reading the
//! terminal, drawing on it and keeping time are left to the program round
//! the library, which hands in key strokes, sizes and milliseconds and gets
//! back commands, states and what is to be drawn.

pub mod action;
pub mod app;
pub mod components;
pub mod config;
pub mod constants;
pub mod keys;
pub mod layout;
pub mod model;
pub mod pages;
pub mod style;
pub mod text;
