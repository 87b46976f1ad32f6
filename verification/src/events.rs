//! The events of the game: what happens to the active piece, to the map
//! in the editor and to the leaderboard.

use crate::assets::options::GameOptions;
use crate::assets::pattern::Pattern;
use crate::components::active::Turn;
use crate::resources::score::ScoreRecord;
use vstd::prelude::*;

verus! {

/// An event for the round to handle.
pub enum GameEvent {
    /// Bring a piece of this pattern into play in place of the active one.
    /// An unswappable piece cannot go into the hold.
    SetActivePattern { pattern: Pattern, unswappable: bool },
    /// The player asks to commit the active piece. A piece that does not
    /// fit stays in play.
    CommitActive,
    /// The placement timer ran out: commit the active piece or lose.
    TimerCommitActive,
}

/// What the player means to do, whatever device said so.
#[derive(Clone, Copy, Debug, PartialEq, Eq, Structural, Hash)]
pub enum Intent {
    /// Turn the active piece by a quarter.
    Rotate(Turn),
    /// Move the active piece by so many cells.
    MoveBy(isize, isize),
    /// Put the active piece at this cell, where the pointer is.
    MoveTo(isize, isize),
    /// Swap the active piece with the hold.
    HoldSwap,
    /// Commit the active piece where it is.
    Commit,
}

/// An event of the map editor.
pub enum EditEvent {
    /// Put a cell where the preview tile is.
    PlaceActive,
    /// Take the cell at this place away.
    Clear((isize, isize)),
    /// Save the cells as a map of this name under this path.
    SaveCurrentMap { name: String, path: String },
    /// Play a round on the cells as they are.
    RunCurrentMap { options: GameOptions },
}

/// An event of the leaderboard.
pub enum HttpEvent {
    /// A score is to be sent.
    InsertScore(ScoreRecord),
    /// The leaderboard has come.
    SetHighScores(Vec<ScoreRecord>),
    /// The leaderboard is to be asked for again.
    RequestHighScoresRefresh,
    /// The service failed; the text says how.
    Error(String),
}

/// What is to be done about an event of the leaderboard.
pub enum HttpAction {
    /// Send this score.
    PostScore(ScoreRecord),
    /// Ask for the leaderboard.
    FetchScores,
    /// Tell the player that the service failed.
    Report(String),
    /// Nothing.
    Nothing,
}

} // verus!
