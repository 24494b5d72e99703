//! A facelet model of a Rubik's cube: six faces of nine coloured stickers,
//! the solved state, and the text that draws a cube on a colour terminal.

pub mod color;
pub mod cube;
pub mod render;
