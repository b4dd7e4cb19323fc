//! The game's systems, grouped by concern.

pub mod collision;
pub mod food;
pub mod input;
pub mod lifecycle;
pub mod movement;
pub mod render;
pub mod scoring;
