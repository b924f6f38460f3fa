//! Game logic of Bobby Carrot: the tiles of a level, Bobby's movement across
//! the 16 x 16 grid, and the per-frame decisions of the game loop.
//!
//! Rendering, input and file access live in the application around this
//! library; everything here computes on plain values.

pub mod tile;
pub mod bobby;
pub mod level;
pub mod game;
