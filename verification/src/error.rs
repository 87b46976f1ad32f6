//! What can be wrong with the description of a round.

use vstd::prelude::*;

verus! {

/// A round cannot be set up from what it was given.
#[derive(Clone, Copy, Debug, PartialEq, Eq, Structural, Hash)]
pub enum ConfigurationError {
    /// No pattern is left to draw pieces from.
    EmptyPatternPool,
    /// The level names a map that is not among the maps.
    MissingMap,
    /// Neither the named theme nor the default theme is among the themes.
    MissingTheme,
}

} // verus!
