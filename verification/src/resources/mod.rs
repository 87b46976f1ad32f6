//! Per-round bookkeeping values.

pub mod bag;
pub mod hold;
pub mod input;
pub mod next;
pub mod score;
pub mod step;
pub mod username;
