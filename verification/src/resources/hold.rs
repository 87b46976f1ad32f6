//! The hold: one pattern put aside.

use crate::assets::pattern::{Pattern, PatternView};
use vstd::prelude::*;

verus! {

/// A slot for one pattern kept back for later. It is not timed.
pub struct Hold(Option<Pattern>);

impl View for Hold {
    type V = Option<PatternView>;

    closed spec fn view(&self) -> Option<PatternView> {
        match self.0 {
            Some(p) => Some(p@),
            None => None,
        }
    }
}

impl Default for Hold {
    fn default() -> (d: Hold)
        ensures
            d@ is None,
    {
        Hold(None)
    }
}

impl Hold {
    /// An empty hold.
    pub fn new() -> (h: Hold)
        ensures
            h@ is None,
    {
        Hold(None)
    }

    /// The held pattern, if there is one.
    pub fn get(&self) -> (p: Option<&Pattern>)
        ensures
            match p {
                Some(held) => self@ == Some(held@),
                None => self@ is None,
            },
    {
        self.0.as_ref()
    }

    /// Puts `pattern` in the hold, in place of what was there.
    pub fn set(&mut self, pattern: Pattern)
        ensures
            final(self)@ == Some(pattern@),
    {
        self.0 = Some(pattern);
    }

    /// Empties the hold.
    pub fn clear(&mut self)
        ensures
            final(self)@ is None,
    {
        self.0 = None;
    }

    /// Puts `pattern` in the hold and gives back what was there.
    pub fn swap(&mut self, pattern: Pattern) -> (held: Option<Pattern>)
        ensures
            final(self)@ == Some(pattern@),
            match held {
                Some(p) => old(self)@ == Some(p@),
                None => old(self)@ is None,
            },
    {
        let held = self.0.take();
        self.0 = Some(pattern);
        held
    }
}

} // verus!
