//! The score of a round and the records that go to the leaderboard.

use crate::events::{HttpAction, HttpEvent};
use crate::resources::username::UsernameResource;
use crate::state::{GameType, PostGameDetails};
use vstd::prelude::*;

verus! {

/// A score under the name of who reached it.
#[derive(Clone, Debug, PartialEq, Eq, Hash)]
pub struct ScoreRecord {
    pub score: usize,
    pub name: String,
}

/// The score of the round: one point for each cleared cell.
pub struct Score(usize);

impl View for Score {
    type V = nat;

    closed spec fn view(&self) -> nat {
        self.0 as nat
    }
}

impl Default for Score {
    fn default() -> (d: Score)
        ensures
            d@ == 0,
    {
        Score(0)
    }
}

impl Score {
    /// A score of zero.
    pub fn new() -> (s: Score)
        ensures
            s@ == 0,
    {
        Score(0)
    }

    /// The points so far.
    pub fn value(&self) -> (n: usize)
        ensures
            n == self@,
    {
        self.0
    }

    /// Adds `points`.
    pub fn gain(&mut self, points: usize)
        requires
            old(self)@ + points <= usize::MAX,
        ensures
            final(self)@ == old(self)@ + points,
    {
        self.0 = self.0 + points;
    }
}

/// The leaderboard as last received; `None` until it has come.
pub struct HighScoresResource(pub Option<Vec<ScoreRecord>>);

impl Default for HighScoresResource {
    fn default() -> (d: HighScoresResource)
        ensures
            d.0 is None,
    {
        HighScoresResource(None)
    }
}

impl HighScoresResource {
    /// A leaderboard that has not come yet.
    pub fn new() -> (h: HighScoresResource)
        ensures
            h.0 is None,
    {
        HighScoresResource(None)
    }

    /// Takes an event of the leaderboard. Scores that have come are kept
    /// in place of the old ones; everything else leaves the leaderboard
    /// as it is and is handed on to be done. Nothing here touches a round.
    pub fn handle(&mut self, event: HttpEvent) -> (action: HttpAction)
        ensures
            match event {
                HttpEvent::InsertScore(record) => {
                    &&& action == HttpAction::PostScore(record)
                    &&& final(self).0 == old(self).0
                },
                HttpEvent::SetHighScores(scores) => {
                    &&& action is Nothing
                    &&& final(self).0 == Some(scores)
                },
                HttpEvent::RequestHighScoresRefresh => {
                    &&& action is FetchScores
                    &&& final(self).0 == old(self).0
                },
                HttpEvent::Error(text) => {
                    &&& action == HttpAction::Report(text)
                    &&& final(self).0 == old(self).0
                },
            },
    {
        match event {
            HttpEvent::InsertScore(record) => HttpAction::PostScore(record),
            HttpEvent::SetHighScores(scores) => {
                self.0 = Some(scores);
                HttpAction::Nothing
            },
            HttpEvent::RequestHighScoresRefresh => HttpAction::FetchScores,
            HttpEvent::Error(text) => HttpAction::Report(text),
        }
    }
}

/// The record to send to the leaderboard after the game `details`: the
/// score of an endless game under the player's name, once there is one.
pub fn record_for(details: &PostGameDetails, name: Option<&UsernameResource>) -> (r: Option<
    ScoreRecord,
>)
    ensures
        r is Some <==> details.game_type is Endless && name is Some,
        r matches Some(record) ==> record.score == details.score && record.name@ == name->0@,
{
    match &details.game_type {
        GameType::Endless(_) => {
            match name {
                Some(username) => Some(
                    ScoreRecord { score: details.score, name: username.name().clone() },
                ),
                None => None,
            }
        },
        _ => None,
    }
}

} // verus!
