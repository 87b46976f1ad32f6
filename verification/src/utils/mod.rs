//! Small shared pieces.

pub mod colors;
