//! Campaigns: levels in a row, each with a map, options and an objective.

use crate::assets::map::MapAsset;
use crate::assets::options::GameOptions;
use crate::error::ConfigurationError;
use crate::time::Span;
use vstd::prelude::*;

verus! {

/// What wins or loses a round.
#[derive(Clone, Copy, Debug, PartialEq, Eq, Structural, Hash)]
pub enum Objective {
    /// Nothing to win: play as long as the pieces fit.
    FreePlay,
    /// Last this long.
    Survive(Span),
    /// Have this score when the time is up.
    TimeLimit { required_score: usize, duration: Span },
    /// Reach this score.
    Score(usize),
}

impl Default for Objective {
    fn default() -> (o: Objective)
        ensures
            o == Objective::FreePlay,
    {
        Objective::FreePlay
    }
}

impl Objective {
    /// The time the objective runs for, where it has one.
    pub fn duration(&self) -> (d: Option<Span>)
        ensures
            d == match *self {
                Objective::Survive(duration) => Some(duration),
                Objective::TimeLimit { duration, .. } => Some(duration),
                _ => None,
            },
    {
        match self {
            Objective::Survive(duration) => Some(*duration),
            Objective::TimeLimit { duration, .. } => Some(*duration),
            _ => None,
        }
    }
}

/// A map, named by its place in the list of maps.
pub type MapId = usize;

/// A level as it is written down: the map by name.
#[derive(Clone, Debug, PartialEq, Eq, Hash)]
pub struct LevelDescription {
    pub map: String,
    pub options: GameOptions,
    pub objective: Objective,
}

/// A campaign as it is written down.
#[derive(Clone, Debug, PartialEq, Eq, Hash)]
pub struct CampaignDescription {
    pub name: String,
    pub levels: Vec<LevelDescription>,
}

/// A level ready to play: the map by its place among the maps.
#[derive(Clone, Debug, PartialEq, Eq, Hash)]
pub struct Level {
    pub map: MapId,
    pub options: GameOptions,
    pub objective: Objective,
}

/// A campaign ready to play.
#[derive(Clone, Debug, PartialEq, Eq, Hash)]
pub struct Campaign {
    pub name: String,
    pub levels: Vec<Level>,
}

/// Whether `id` is the first map of `maps` that is called `name`.
pub open spec fn is_first_named(maps: Seq<MapAsset>, name: Seq<char>, id: int) -> bool {
    &&& 0 <= id < maps.len()
    &&& maps[id].name@ == name
    &&& forall|j: int| 0 <= j < id ==> (#[trigger] maps[j]).name@ != name
}

/// Whether some map of `maps` is called `name`.
pub open spec fn has_map(maps: Seq<MapAsset>, name: Seq<char>) -> bool {
    exists|j: int| 0 <= j < maps.len() && (#[trigger] maps[j]).name@ == name
}

/// `level` is the level that `description` describes, over `maps`.
pub open spec fn resolves(description: LevelDescription, maps: Seq<MapAsset>, level: Level) -> bool {
    &&& is_first_named(maps, description.map@, level.map as int)
    &&& level.options@ == description.options@
    &&& level.objective == description.objective
}

/// The first map called `name`, if there is one.
pub fn find_map(maps: &Vec<MapAsset>, name: &String) -> (r: Option<MapId>)
    ensures
        match r {
            Some(id) => is_first_named(maps@, name@, id as int),
            None => !has_map(maps@, name@),
        },
{
    let mut i: usize = 0;
    while i < maps.len()
        invariant
            i <= maps.len(),
            forall|j: int| 0 <= j < i ==> (#[trigger] maps@[j]).name@ != name@,
        decreases maps.len() - i,
    {
        if maps[i].name == *name {
            return Some(i);
        }
        i += 1;
    }
    None
}

impl Level {
    /// A level that holds the same.
    pub fn duplicate(&self) -> (l: Level)
        ensures
            l.map == self.map,
            l.options@ == self.options@,
            l.objective == self.objective,
    {
        Level { map: self.map, options: self.options.duplicate(), objective: self.objective }
    }
}

impl Campaign {
    /// The campaign that `description` describes, each level on the first
    /// map that has the name the level asks for. A level that asks for a
    /// map that is not there makes the whole campaign fail.
    pub fn from_description(description: &CampaignDescription, maps: &Vec<MapAsset>) -> (r: Result<
        Campaign,
        ConfigurationError,
    >)
        ensures
            match r {
                Ok(campaign) => {
                    &&& campaign.name@ == description.name@
                    &&& campaign.levels@.len() == description.levels@.len()
                    &&& forall|i: int|
                        0 <= i < description.levels@.len() ==> resolves(
                            description.levels@[i],
                            maps@,
                            #[trigger] campaign.levels@[i],
                        )
                },
                Err(e) => {
                    &&& e == ConfigurationError::MissingMap
                    &&& exists|i: int|
                        0 <= i < description.levels@.len() && !has_map(
                            maps@,
                            (#[trigger] description.levels@[i]).map@,
                        )
                },
            },
    {
        let mut levels: Vec<Level> = Vec::new();
        let mut i: usize = 0;
        while i < description.levels.len()
            invariant
                i <= description.levels.len(),
                levels@.len() == i,
                forall|j: int|
                    0 <= j < i ==> resolves(description.levels@[j], maps@, #[trigger] levels@[j]),
            decreases description.levels.len() - i,
        {
            let wanted = &description.levels[i];
            match find_map(maps, &wanted.map) {
                None => {
                    return Err(ConfigurationError::MissingMap);
                },
                Some(map) => {
                    levels.push(
                        Level {
                            map,
                            options: wanted.options.duplicate(),
                            objective: wanted.objective,
                        },
                    );
                },
            }
            i += 1;
        }
        Ok(Campaign { name: description.name.clone(), levels })
    }
}

} // verus!
