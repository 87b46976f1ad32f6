//! The pattern that comes after the active piece.

use crate::resources::bag::PatternId;
use vstd::prelude::*;

verus! {

/// The next pattern in line to become the active piece.
pub struct NextUp(PatternId);

impl View for NextUp {
    type V = PatternId;

    closed spec fn view(&self) -> PatternId {
        self.0
    }
}

impl NextUp {
    /// A slot that holds `pattern`.
    pub fn new(pattern: PatternId) -> (n: NextUp)
        ensures
            n@ == pattern,
    {
        NextUp(pattern)
    }

    /// Puts `pattern` next in line.
    pub fn set(&mut self, pattern: PatternId)
        ensures
            final(self)@ == pattern,
    {
        self.0 = pattern;
    }

    /// The pattern next in line.
    pub fn get(&self) -> (pattern: PatternId)
        ensures
            pattern == self@,
    {
        self.0
    }
}

} // verus!
