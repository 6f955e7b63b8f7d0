pub mod game;
pub mod input;
pub mod render;
mod rng;
