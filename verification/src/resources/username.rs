//! The name the player's scores are filed under.

use vstd::prelude::*;

verus! {

/// The player's name, once it has been asked for.
pub struct UsernameResource(String);

impl View for UsernameResource {
    type V = Seq<char>;

    closed spec fn view(&self) -> Seq<char> {
        self.0@
    }
}

impl UsernameResource {
    /// The name `name`.
    pub fn new(name: String) -> (u: UsernameResource)
        ensures
            u@ == name@,
    {
        UsernameResource(name)
    }

    /// The name.
    pub fn name(&self) -> (name: &String)
        ensures
            name@ == self@,
    {
        &self.0
    }
}

} // verus!
