//! A verified Connect-4 engine: a 7x6 board filled by gravity, an
//! alternating-turn `add` move, win detection along straight lines,
//! and a textual rendering of the grid.

pub mod game;
pub mod win;
pub mod render;
