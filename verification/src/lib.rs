//! Round core of a tile-placement puzzle: the piece bag, the step clock,
//! the board scorer, the objective rules and the round state machine.

pub mod assets;
pub mod components;
pub mod error;
pub mod events;
pub mod game;
pub mod loading;
pub mod resources;
pub mod state;
pub mod time;
pub mod utils;
