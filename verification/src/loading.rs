//! The stages in which the game's assets are loaded.

use vstd::prelude::*;

verus! {

/// Assets are loaded in stages, because some refer to others by name.
pub struct Stage(usize);

impl View for Stage {
    type V = nat;

    closed spec fn view(&self) -> nat {
        self.0 as nat
    }
}

/// What the loader is to do next.
#[derive(Clone, Copy, Debug, PartialEq, Eq, Structural, Hash)]
pub enum LoadAction {
    /// Something is still loading: wait.
    Wait,
    /// Nothing to start yet; the list of assets has just come.
    Settle,
    /// Start loading the descriptions of themes and campaigns.
    LoadDescriptions,
    /// Start loading the settings, the patterns, the maps and the saves.
    LoadContent,
    /// Build themes and campaigns from their descriptions.
    Build,
    /// Everything is there: go to the menu.
    Finish,
}

/// What is to be done at `stage` once nothing is loading any more.
pub open spec fn action_at(stage: nat) -> LoadAction {
    if stage == 0 {
        LoadAction::Settle
    } else if stage == 1 {
        LoadAction::LoadDescriptions
    } else if stage == 2 {
        LoadAction::LoadContent
    } else if stage == 3 {
        LoadAction::Build
    } else {
        LoadAction::Finish
    }
}

impl Default for Stage {
    fn default() -> (d: Stage)
        ensures
            d@ == 0,
    {
        Stage(0)
    }
}

impl Stage {
    /// The first stage.
    pub fn new() -> (s: Stage)
        ensures
            s@ == 0,
    {
        Stage(0)
    }

    /// The number of the stage.
    pub fn current(&self) -> (n: usize)
        ensures
            n == self@,
    {
        self.0
    }

    /// Goes to the next stage.
    pub fn next(&mut self)
        requires
            old(self)@ < usize::MAX,
        ensures
            final(self)@ == old(self)@ + 1,
    {
        self.0 = self.0 + 1;
    }

    /// Says what to do now, and moves on to the next stage unless
    /// something is still loading or everything is done.
    pub fn advance(&mut self, done_loading: bool) -> (action: LoadAction)
        ensures
            action == (if done_loading {
                action_at(old(self)@)
            } else {
                LoadAction::Wait
            }),
            final(self)@ == (if done_loading && old(self)@ < 4 {
                old(self)@ + 1
            } else {
                old(self)@
            }),
    {
        if !done_loading {
            LoadAction::Wait
        } else if self.0 == 0 {
            self.0 = 1;
            LoadAction::Settle
        } else if self.0 == 1 {
            self.0 = 2;
            LoadAction::LoadDescriptions
        } else if self.0 == 2 {
            self.0 = 3;
            LoadAction::LoadContent
        } else if self.0 == 3 {
            self.0 = 4;
            LoadAction::Build
        } else {
            LoadAction::Finish
        }
    }
}

} // verus!
