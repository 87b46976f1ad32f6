//! Which device steers the active piece.

use vstd::prelude::*;

verus! {

/// The device that decides where the active piece is.
#[derive(Clone, Copy, Debug, PartialEq, Eq, Structural, Hash)]
pub enum ActivePositionMode {
    /// The piece moves by one cell for each key press and stays where it
    /// is when a new piece comes.
    Keyboard,
    /// The piece follows the pointer.
    Mouse,
}

} // verus!
