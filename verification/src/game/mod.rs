//! The rules of a round: scoring, objectives and the round itself.

pub mod objective;
pub mod round;
pub mod scorer;
