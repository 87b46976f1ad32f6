//! Saves: how far a player has come in a campaign.

use crate::state::{GameResult, GameType, PostGameDetails};
use vstd::prelude::*;

verus! {

/// A point in time: whole seconds since the start of 1970 in universal
/// time, and the nanoseconds past them.
#[derive(Clone, Copy, Debug, PartialEq, Eq, Structural, Hash)]
pub struct Timestamp {
    pub secs: i64,
    pub nanos: u32,
}

/// The campaign a player is in and the level they have reached.
#[derive(Clone, Debug, PartialEq, Eq, Hash)]
pub struct Save {
    pub created_at: Timestamp,
    pub updated_at: Timestamp,
    pub campaign: String,
    pub level: usize,
}

/// The time on the system's clock.
///
/// Calls `chrono::Local::now` and takes the seconds and nanoseconds of what
/// it returns, by `DateTime::timestamp` and
/// `DateTime::timestamp_subsec_nanos`. Nothing is claimed of the time read:
/// two readings may be equal, and a later one may be earlier. `now` panics
/// where the system's clock is set before 1970.
#[verifier::external_body]
fn now() -> Timestamp {
    let time = chrono::Local::now();
    Timestamp { secs: time.timestamp(), nanos: time.timestamp_subsec_nanos() }
}

/// Whether a finished game moves a save on: a campaign level was won and
/// the campaign has a level after it.
pub open spec fn moves_on(details: PostGameDetails) -> bool {
    &&& details.game_type is Campaign
    &&& details.result is Win
    &&& details.game_type->Campaign_0.level_index + 1
        < details.game_type->Campaign_0.campaign.levels@.len()
}

/// The save `made` follows from `details`: an earlier save moves to the
/// next level and is stamped `second`; without one, a save of the
/// campaign at the level just played is made, created at `first` and
/// updated at `second`.
pub open spec fn follows(
    details: PostGameDetails,
    current: Option<&Save>,
    first: Timestamp,
    second: Timestamp,
    made: Save,
) -> bool {
    let campaign = details.game_type->Campaign_0;
    match current {
        Some(save) => {
            &&& made.created_at == save.created_at
            &&& made.updated_at == second
            &&& made.campaign@ == save.campaign@
            &&& made.level == campaign.level_index + 1
        },
        None => {
            &&& made.created_at == first
            &&& made.updated_at == second
            &&& made.campaign@ == campaign.campaign.name@
            &&& made.level == campaign.level_index
        },
    }
}

impl Save {
    /// A save of `campaign` at `level` with the given times.
    pub fn stamped(campaign: String, level: usize, created_at: Timestamp, updated_at: Timestamp) -> (s:
        Save)
        ensures
            s.created_at == created_at,
            s.updated_at == updated_at,
            s.campaign@ == campaign@,
            s.level == level,
    {
        Save { created_at, updated_at, campaign, level }
    }

    /// A save of `campaign` at `level`, created and updated now.
    pub fn new(campaign: String, level: usize) -> (s: Save)
        ensures
            s.campaign@ == campaign@,
            s.level == level,
    {
        let created_at = now();
        let updated_at = now();
        Save::stamped(campaign, level, created_at, updated_at)
    }

    /// This save moved to `level` at the time `at`.
    pub fn advanced(&self, level: usize, at: Timestamp) -> (s: Save)
        ensures
            s.created_at == self.created_at,
            s.updated_at == at,
            s.campaign@ == self.campaign@,
            s.level == level,
    {
        Save {
            created_at: self.created_at,
            updated_at: at,
            campaign: self.campaign.clone(),
            level,
        }
    }
}

/// The save to write after the game `details`, the clock having read
/// `first` and then `second`; `None` where the game does not move a save
/// on.
pub fn progress_at(
    details: &PostGameDetails,
    current: Option<&Save>,
    first: Timestamp,
    second: Timestamp,
) -> (r: Option<Save>)
    ensures
        r is Some <==> moves_on(*details),
        r matches Some(made) ==> follows(*details, current, first, second, made),
{
    match &details.game_type {
        GameType::Campaign(campaign) => {
            match details.result {
                GameResult::Win => {
                    match campaign.next_level() {
                        Some((_, next_index)) => {
                            match current {
                                Some(save) => Some(save.advanced(next_index, second)),
                                None => Some(
                                    Save::stamped(
                                        campaign.campaign.name.clone(),
                                        campaign.level_index,
                                        first,
                                        second,
                                    ),
                                ),
                            }
                        },
                        None => None,
                    }
                },
                GameResult::Lose => None,
            }
        },
        _ => None,
    }
}

/// The save to write after the game `details`, stamped with the time it
/// is now; `None` where the game does not move a save on.
pub fn progress(details: &PostGameDetails, current: Option<&Save>) -> (r: Option<Save>)
    ensures
        r is Some <==> moves_on(*details),
        r matches Some(made) ==> exists|first: Timestamp, second: Timestamp| #[trigger]
            follows(*details, current, first, second, made),
{
    let first = now();
    let second = now();
    progress_at(details, current, first, second)
}

} // verus!
