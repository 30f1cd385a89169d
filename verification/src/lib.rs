//! Conway's Game of Life on a toroidal grid.
//!
//! [`board`] holds the mathematical model of a grid and of one generation
//! step. [`game_of_life`] holds the executable grid, whose every operation is
//! specified against that model, and [`controller`] wraps a grid with the
//! run/pause and drag-painting state of an interactive front end.
//! [`theorems`] states what follows from the model for every grid.

pub mod board;
pub mod controller;
pub mod game_of_life;
pub mod theorems;
