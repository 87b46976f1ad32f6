//! The pieces a round is made of: board tiles and the active piece.

pub mod active;
pub mod scored;
pub mod tiles;
pub mod timer;
