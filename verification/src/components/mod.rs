//! What the pages are drawn with.

pub mod background;
pub mod help;
pub mod multiline;
