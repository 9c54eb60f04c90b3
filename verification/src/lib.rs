//! A snake game on a fixed grid.
//!
//! The library holds the rules of the game and proves what they promise:
//!
//! - [`board`]: the grid, its bounds and the row-major index of a cell;
//! - [`direction`]: the four directions and the cell that each one leads to;
//! - [`snake`]: the body of the snake, and how it moves and grows;
//! - [`food`]: the random placement of food on a cell off the snake;
//! - [`game`]: one tick of the game and the state it leaves behind;
//! - [`painter`]: the symbol that each cell shows;
//! - [`render`]: the painted cells as framed lines;
//! - [`input`]: the meaning of the keys.
//!
//! Reading the keyboard, keeping time and printing are left to the program
//! around it.

pub mod board;
pub mod direction;
pub mod food;
pub mod game;
pub mod input;
pub mod painter;
pub mod render;
pub mod snake;
