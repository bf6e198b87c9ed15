//! Rules engine for a grid-based Snake game.
//!
//! The library owns the grid simulation: the snake body, wall layout, food
//! location, heading and run status, together with the tick transition that
//! advances the game by one step. A host application drives it by calling
//! `Game::new`, `start`, the direction setters and `next_tick`, and reads the
//! rendered cell grid and the snake body back for display.

pub mod game;
pub mod laws;
mod rng;
pub mod types;
pub mod view;
