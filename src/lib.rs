//! Simulation core of a grid-based Snake game: positions and directions,
//! a handle-based entity store, timers, score, and the game-state machine
//! that drives one frame of play.

pub mod component;
pub mod score;
pub mod world;
pub mod resource;
pub mod state;
pub mod input;
pub mod model;
pub mod game;
pub mod laws;
