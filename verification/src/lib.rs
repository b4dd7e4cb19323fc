//! Terminal snake game: the rules of play as a verified state machine.
//!
//! The game world (snake body, food, score, speed, game state) is the plain
//! value [`game::Game`]. Every system of the game is a method on it whose
//! contract states exactly how it changes the world; [`game::Game::frame`]
//! runs one whole frame in schedule order.

pub mod behaviour;
pub mod components;
pub mod config;
pub mod game;
pub mod laws;
pub mod resources;
pub mod schedule;
pub mod state;
pub mod systems;
