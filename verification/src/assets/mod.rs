//! Immutable descriptions of what a round is played with.

pub mod campaign;
pub mod map;
pub mod options;
pub mod pattern;
pub mod save;
pub mod theme;
