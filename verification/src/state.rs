//! The states of the game around a round, and what they carry.

use crate::assets::campaign::{Campaign, Level, MapId, Objective};
use crate::assets::options::GameOptions;
use crate::assets::save::Save;
use vstd::prelude::*;

verus! {

/// How a round ended.
#[derive(Clone, Copy, Debug, PartialEq, Eq, Structural, Hash)]
pub enum GameResult {
    Lose,
    Win,
}

impl Default for GameResult {
    fn default() -> (r: GameResult)
        ensures
            r == GameResult::Lose,
    {
        GameResult::Lose
    }
}

/// What a round needs to be played: a map, options and an objective.
#[derive(Clone, Debug, PartialEq, Eq, Hash)]
pub struct GameDetails {
    pub map: MapId,
    pub options: GameOptions,
    pub objective: Objective,
}

impl Default for GameDetails {
    fn default() -> (d: GameDetails)
        ensures
            d.map == 0,
            d.options@ == GameOptions::default_view(),
            d.objective == Objective::FreePlay,
    {
        GameDetails { map: 0, options: GameOptions::default(), objective: Objective::FreePlay }
    }
}

impl GameDetails {
    /// Details that hold the same.
    pub fn duplicate(&self) -> (d: GameDetails)
        ensures
            d.map == self.map,
            d.options@ == self.options@,
            d.objective == self.objective,
    {
        GameDetails {
            map: self.map,
            options: self.options.duplicate(),
            objective: self.objective,
        }
    }
}

/// A campaign under way: the level being played and the scores of the
/// levels before it.
#[derive(Clone, Debug, PartialEq, Eq, Hash)]
pub struct CampaignDetails {
    pub campaign: Campaign,
    pub level_index: usize,
    pub campaign_scores: Vec<usize>,
}

impl CampaignDetails {
    /// The level index names a level of the campaign.
    pub open spec fn wf(&self) -> bool {
        self.level_index < self.campaign.levels@.len()
    }

    /// The campaign at its first level; `None` for a campaign without
    /// levels, which cannot be played.
    pub fn begin(campaign: Campaign) -> (r: Option<CampaignDetails>)
        ensures
            r is Some <==> campaign.levels@.len() > 0,
            r matches Some(details) ==> details.wf() && details.campaign == campaign
                && details.level_index == 0 && details.campaign_scores@.len() == 0,
    {
        if campaign.levels.len() == 0 {
            None
        } else {
            Some(CampaignDetails { campaign, level_index: 0, campaign_scores: Vec::new() })
        }
    }

    /// The campaign at the level that `save` has reached; `None` where the
    /// save is of another campaign or of a level the campaign does not
    /// have.
    pub fn resume(campaign: Campaign, save: &Save) -> (r: Option<CampaignDetails>)
        ensures
            r is Some <==> campaign.name@ == save.campaign@ && save.level < campaign.levels@.len(),
            r matches Some(details) ==> details.wf() && details.campaign == campaign
                && details.level_index == save.level && details.campaign_scores@.len() == 0,
    {
        if campaign.name == save.campaign && save.level < campaign.levels.len() {
            Some(CampaignDetails { campaign, level_index: save.level, campaign_scores: Vec::new() })
        } else {
            None
        }
    }

    /// The level being played, and its index.
    pub fn current_level(&self) -> (r: (&Level, usize))
        requires
            self.wf(),
        ensures
            *r.0 == self.campaign.levels@[self.level_index as int],
            r.1 == self.level_index,
    {
        (&self.campaign.levels[self.level_index], self.level_index)
    }

    /// The level after the one being played, and its index, if the
    /// campaign has one more.
    pub fn next_level(&self) -> (r: Option<(&Level, usize)>)
        ensures
            match r {
                Some((level, index)) => index == self.level_index + 1 && index
                    < self.campaign.levels@.len() && *level == self.campaign.levels@[index as int],
                None => self.level_index + 1 >= self.campaign.levels@.len(),
            },
    {
        if self.level_index < self.campaign.levels.len() && self.level_index + 1
            < self.campaign.levels.len() {
            let index: usize = self.level_index + 1;
            Some((&self.campaign.levels[index], index))
        } else {
            None
        }
    }

    /// The campaign moved on to its next level, if it has one more.
    pub fn advance(self) -> (r: Option<CampaignDetails>)
        ensures
            match r {
                Some(next) => self.level_index + 1 < self.campaign.levels@.len() && next.level_index
                    == self.level_index + 1 && next.campaign == self.campaign
                    && next.campaign_scores == self.campaign_scores,
                None => self.level_index + 1 >= self.campaign.levels@.len(),
            },
    {
        if self.level_index < self.campaign.levels.len() && self.level_index + 1
            < self.campaign.levels.len() {
            Some(
                CampaignDetails {
                    campaign: self.campaign,
                    level_index: self.level_index + 1,
                    campaign_scores: self.campaign_scores,
                },
            )
        } else {
            None
        }
    }

    /// The number of levels of the campaign.
    pub fn level_count(&self) -> (n: usize)
        ensures
            n == self.campaign.levels@.len(),
    {
        self.campaign.levels.len()
    }
}

/// The kind of game being played, with what it needs.
#[derive(Clone, Debug, PartialEq, Eq, Hash)]
pub enum GameType {
    /// A level of a campaign.
    Campaign(CampaignDetails),
    /// The endless mode, whose scores go to the leaderboard.
    Endless(GameDetails),
    /// Anything else, such as a single custom game.
    Other(GameDetails),
}

/// Whether `game` is a game with nothing chosen: no campaign, the first
/// map, the default options and nothing to win.
pub open spec fn is_unset(game: GameType) -> bool {
    &&& game is Other
    &&& game->Other_0.map == 0
    &&& game->Other_0.options@ == GameOptions::default_view()
    &&& game->Other_0.objective == Objective::FreePlay
}

impl Default for GameType {
    fn default() -> (t: GameType)
        ensures
            is_unset(t),
    {
        GameType::Other(GameDetails::default())
    }
}

impl GameType {
    /// A campaign game names one of the campaign's levels.
    pub open spec fn wf(&self) -> bool {
        match self {
            GameType::Campaign(c) => c.wf(),
            _ => true,
        }
    }

    /// The details of the game: of the level being played, for a campaign.
    pub fn get_details(&self) -> (d: GameDetails)
        requires
            self.wf(),
        ensures
            match self {
                GameType::Campaign(c) => {
                    let level = c.campaign.levels@[c.level_index as int];
                    d.map == level.map && d.options@ == level.options@ && d.objective
                        == level.objective
                },
                GameType::Endless(o) | GameType::Other(o) => d.map == o.map && d.options@
                    == o.options@ && d.objective == o.objective,
            },
    {
        match self {
            GameType::Campaign(c) => {
                let level = c.current_level().0;
                GameDetails {
                    map: level.map,
                    options: level.options.duplicate(),
                    objective: level.objective,
                }
            },
            GameType::Endless(o) => o.duplicate(),
            GameType::Other(o) => o.duplicate(),
        }
    }

    /// The campaign under way, for a campaign game.
    pub fn get_campaign(&self) -> (c: Option<&CampaignDetails>)
        ensures
            match self {
                GameType::Campaign(details) => c == Some(details),
                _ => c is None,
            },
    {
        match self {
            GameType::Campaign(c) => Some(c),
            _ => None,
        }
    }
}

/// What is known of a game once its round is over.
#[derive(Clone, Debug, PartialEq, Eq, Hash)]
pub struct PostGameDetails {
    pub game_type: GameType,
    pub score: usize,
    pub result: GameResult,
}

impl PostGameDetails {
    /// The state that comes after this one when the player goes on: the
    /// next level of a campaign that was won and has one, the same game
    /// again after anything else; `None` after the last level of a
    /// campaign, which leaves only the menu.
    pub fn follow_up(self) -> (r: Option<GameType>)
        ensures
            match self.game_type {
                GameType::Campaign(c) => match self.result {
                    GameResult::Win => if c.level_index + 1 < c.campaign.levels@.len() {
                        r matches Some(GameType::Campaign(next)) && next.level_index == c.level_index
                            + 1 && next.campaign == c.campaign && next.campaign_scores
                            == c.campaign_scores
                    } else {
                        r is None
                    },
                    GameResult::Lose => r == Some(self.game_type),
                },
                _ => r == Some(self.game_type),
            },
    {
        match self.game_type {
            GameType::Campaign(c) => {
                match self.result {
                    GameResult::Win => {
                        match c.advance() {
                            Some(next) => Some(GameType::Campaign(next)),
                            None => None,
                        }
                    },
                    GameResult::Lose => Some(GameType::Campaign(c)),
                }
            },
            GameType::Endless(d) => Some(GameType::Endless(d)),
            GameType::Other(d) => Some(GameType::Other(d)),
        }
    }
}

/// The states the game can be in.
#[derive(Clone, Debug, Hash)]
pub enum GameState {
    /// Assets are loading.
    Load,
    /// The main menu.
    Menu,
    /// Before a round: what is about to be played is shown.
    PreGame(GameType),
    /// A round is being played.
    Game(GameType),
    /// After a round.
    PostGame(PostGameDetails),
    /// Paused.
    Pause,
    /// The map editor.
    Edit,
}

impl PartialEq for GameState {
    /// Two states are equal when they are of the same kind, whatever they
    /// carry.
    fn eq(&self, other: &GameState) -> (b: bool) {
        self.is_same_kind(other)
    }
}

impl vstd::std_specs::cmp::PartialEqSpecImpl for GameState {
    open spec fn obeys_eq_spec() -> bool {
        true
    }

    open spec fn eq_spec(&self, other: &GameState) -> bool {
        self.same_kind(other)
    }
}

impl Eq for GameState {

}

impl Default for GameState {
    fn default() -> (s: GameState)
        ensures
            s is Load,
    {
        GameState::Load
    }
}

impl GameState {
    /// Whether `self` and `other` are the same state, whatever they carry.
    pub open spec fn same_kind(&self, other: &GameState) -> bool {
        match (self, other) {
            (GameState::Load, GameState::Load) => true,
            (GameState::Menu, GameState::Menu) => true,
            (GameState::PreGame(_), GameState::PreGame(_)) => true,
            (GameState::Game(_), GameState::Game(_)) => true,
            (GameState::PostGame(_), GameState::PostGame(_)) => true,
            (GameState::Pause, GameState::Pause) => true,
            (GameState::Edit, GameState::Edit) => true,
            _ => false,
        }
    }

    /// Whether `self` and `other` are the same state, whatever they carry.
    pub fn is_same_kind(&self, other: &GameState) -> (b: bool)
        ensures
            b == self.same_kind(other),
    {
        match (self, other) {
            (GameState::Load, GameState::Load) => true,
            (GameState::Menu, GameState::Menu) => true,
            (GameState::PreGame(_), GameState::PreGame(_)) => true,
            (GameState::Game(_), GameState::Game(_)) => true,
            (GameState::PostGame(_), GameState::PostGame(_)) => true,
            (GameState::Pause, GameState::Pause) => true,
            (GameState::Edit, GameState::Edit) => true,
            _ => false,
        }
    }

    /// The loading state.
    pub fn load() -> (s: GameState)
        ensures
            s is Load,
    {
        GameState::Load
    }

    /// The menu state.
    pub fn menu() -> (s: GameState)
        ensures
            s is Menu,
    {
        GameState::Menu
    }

    /// A state before a round, of a game with nothing chosen.
    pub fn pre_game() -> (s: GameState)
        ensures
            s is PreGame,
            is_unset(s->PreGame_0),
    {
        GameState::PreGame(GameType::default())
    }

    /// A state of play, of a game with nothing chosen.
    pub fn game() -> (s: GameState)
        ensures
            s is Game,
            is_unset(s->Game_0),
    {
        GameState::Game(GameType::default())
    }

    /// The paused state.
    pub fn pause() -> (s: GameState)
        ensures
            s is Pause,
    {
        GameState::Pause
    }

    /// The editor state.
    pub fn edit() -> (s: GameState)
        ensures
            s is Edit,
    {
        GameState::Edit
    }

    /// A state after a round, lost with no points in a game with nothing
    /// chosen.
    pub fn post_game() -> (s: GameState)
        ensures
            s is PostGame,
            s->PostGame_0.score == 0,
            s->PostGame_0.result is Lose,
            is_unset(s->PostGame_0.game_type),
    {
        GameState::PostGame(
            PostGameDetails { game_type: GameType::default(), score: 0, result: GameResult::Lose },
        )
    }
}

} // verus!
