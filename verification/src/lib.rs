//! Screen model of a terminal emulator: a grid of styled cells plus a
//! cursor, updated by the actions that a VT escape-sequence parser reports.

pub mod style;
pub mod screen;
pub mod params;
pub mod text;
pub mod grid;
pub mod render;
pub mod laws;
