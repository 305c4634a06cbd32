//! A snake game on a toroidal grid: the simulation state, its step rule and
//! its fixed-interval timing, with every transition proved against its
//! contract.

pub mod grid;
pub mod game;

pub use game::{Heading, Key, SnakeGame};
