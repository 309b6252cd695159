//! An autonomous controller for the grid game Snake.
//!
//! Once per tick the planner looks at the board and picks a heading: towards
//! the food when eating leaves an escape, otherwise after its own tail or
//! into open space, and its current heading when nothing is left to try.

pub mod game;
pub mod grid;
pub mod ai;
pub mod render;
