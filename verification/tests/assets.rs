use pz::assets::campaign::{
    find_map, Campaign, CampaignDescription, LevelDescription, Objective,
};
use pz::assets::map::MapAsset;
use pz::assets::options::{classic_patterns, GameOptions, ScoreDirection, Scorer, TimerRate};
use pz::assets::pattern::{is_pattern_text, Pattern, PatternColor, BLOCK, GAP};
use pz::assets::save::{progress, progress_at, Save, Timestamp};
use pz::assets::theme::{select_theme, Theme, ThemeSfx, ThemeSprites};
use pz::error::ConfigurationError;
use pz::state::{CampaignDetails, GameDetails, GameResult, GameState, GameType, PostGameDetails};
use pz::time::Span;
use pz::utils::colors::{BLUE, GREEN, INDIGO, LIGHT_BLUE, LIME, ORANGE, PURPLE, RED, YELLOW};

fn map(name: &str) -> MapAsset {
    MapAsset { name: String::from(name), pattern: vec![(0, 0)] }
}

fn level(map: &str) -> LevelDescription {
    LevelDescription {
        map: String::from(map),
        options: GameOptions::default(),
        objective: Objective::Score(3),
    }
}

fn campaign(levels: usize) -> Campaign {
    let maps = vec![map("a")];
    let description = CampaignDescription {
        name: String::from("tour"),
        levels: (0..levels).map(|_| level("a")).collect(),
    };
    Campaign::from_description(&description, &maps).unwrap()
}

fn details(levels: usize, index: usize) -> CampaignDetails {
    CampaignDetails { campaign: campaign(levels), level_index: index, campaign_scores: vec![] }
}

fn text(name: &str, color: &str, rows: &[&str]) -> String {
    let mut s = format!("{}\n{}\n", name, color);
    for (i, row) in rows.iter().enumerate() {
        if i > 0 {
            s.push('\n');
        }
        for c in row.chars() {
            s.push(match c {
                '#' => BLOCK,
                '.' => GAP,
                other => other,
            });
        }
    }
    s
}

#[test]
fn map_default_name() {
    assert_eq!(MapAsset::default_name(), "default");
}

#[test]
fn map_rect_is_the_smallest_that_holds_every_cell() {
    let m = MapAsset { name: String::from("m"), pattern: vec![(2, -1), (-3, 4), (0, 0), (5, 1)] };
    assert_eq!(m.calculate_rect(), ((-3, -1), (5, 4)));
    let one = MapAsset { name: String::from("one"), pattern: vec![(7, 8)] };
    assert_eq!(one.calculate_rect(), ((7, 8), (7, 8)));
}

#[test]
fn scorer_default_is_a_square_of_three() {
    assert_eq!(Scorer::default(), Scorer::Square(3));
    assert_ne!(Scorer::default(), Scorer::Line(ScoreDirection::Both));
}

#[test]
fn timer_rate_default() {
    assert_eq!(
        TimerRate::default(),
        TimerRate::Progressive {
            start_rate: Span::from_secs(3),
            end_rate: Span::from_millis(1500),
            steps: 16,
            delay: 0,
        }
    );
}

#[test]
fn options_default() {
    let o = GameOptions::default();
    assert!(o.can_rotate && o.can_hold && o.can_peek);
    assert_eq!(o.timer_rate, TimerRate::Constant(Span::from_secs(3)));
    assert_eq!(o.patterns, None);
    assert_eq!(o.scorer, Scorer::Square(3));
    assert_eq!(o.theme, None);
}

#[test]
fn options_endless() {
    let o = GameOptions::endless();
    assert!(o.can_rotate && o.can_hold && o.can_peek);
    assert_eq!(
        o.timer_rate,
        TimerRate::Progressive {
            start_rate: Span::from_millis(3000),
            end_rate: Span::from_millis(500),
            steps: 64,
            delay: 8,
        }
    );
    assert_eq!(o.patterns, Some(classic_patterns()));
    assert_eq!(o.scorer, Scorer::Square(3));
    assert_eq!(o.theme, None);
}

#[test]
fn classic_patterns_by_name() {
    assert_eq!(
        classic_patterns(),
        vec!["quad", "bracket right", "bracket left", "pyramid", "snake left", "snake right"]
    );
}

#[test]
fn options_duplicate_holds_the_same() {
    let mut o = GameOptions::endless();
    o.theme = Some(String::from("night"));
    o.can_peek = false;
    assert_eq!(o.duplicate(), o);
}

#[test]
fn color_by_name() {
    assert_eq!(PatternColor::from_name("red"), PatternColor::Red);
    assert_eq!(PatternColor::from_name("orange"), PatternColor::Orange);
    assert_eq!(PatternColor::from_name("yellow"), PatternColor::Yellow);
    assert_eq!(PatternColor::from_name("lime"), PatternColor::Lime);
    assert_eq!(PatternColor::from_name("green"), PatternColor::Green);
    assert_eq!(PatternColor::from_name("light blue"), PatternColor::LightBlue);
    assert_eq!(PatternColor::from_name("blue"), PatternColor::Blue);
    assert_eq!(PatternColor::from_name("indigo"), PatternColor::Indigo);
    assert_eq!(PatternColor::from_name("purple"), PatternColor::Purple);
    assert_eq!(PatternColor::from_name("Blue"), PatternColor::Red);
    assert_eq!(PatternColor::from_name(""), PatternColor::Red);
    assert_eq!(PatternColor::default(), PatternColor::Red);
}

#[test]
fn color_as_rgb() {
    assert_eq!(PatternColor::Red.rgb(), RED);
    assert_eq!(PatternColor::Orange.rgb(), ORANGE);
    assert_eq!(PatternColor::Yellow.rgb(), YELLOW);
    assert_eq!(PatternColor::Lime.rgb(), LIME);
    assert_eq!(PatternColor::Green.rgb(), GREEN);
    assert_eq!(PatternColor::LightBlue.rgb(), LIGHT_BLUE);
    assert_eq!(PatternColor::Blue.rgb(), BLUE);
    assert_eq!(PatternColor::Indigo.rgb(), INDIGO);
    assert_eq!(PatternColor::Purple.rgb(), PURPLE);
    assert_eq!(PatternColor::Red.rgb(), [0xEB, 0x47, 0x6F]);
}

#[test]
fn pattern_text_is_read_row_by_row() {
    let p = Pattern::from_emoji(&text("bracket right", "orange", &["##", ".#", ".#"]));
    assert_eq!(p.name, "bracket right");
    assert_eq!(p.color, PatternColor::Orange);
    assert_eq!(p.blocks, vec![(0, 0), (1, 0), (1, -1), (1, -2)]);
}

#[test]
fn pattern_text_passes_over_other_signs() {
    let p = Pattern::from_emoji(&text("odd", "blue", &["#x #", "\r.#"]));
    assert_eq!(p.color, PatternColor::Blue);
    assert_eq!(p.blocks, vec![(0, 0), (1, 0), (1, -1)]);
}

#[test]
fn pattern_text_without_a_shape_has_no_blocks() {
    let p = Pattern::from_emoji("empty\ngreen\n");
    assert_eq!(p.name, "empty");
    assert_eq!(p.color, PatternColor::Green);
    assert!(p.blocks.is_empty());
    let q = Pattern::from_emoji("\n\n");
    assert_eq!(q.name, "");
    assert_eq!(q.color, PatternColor::Red);
}

#[test]
fn pattern_text_needs_two_lines_before_the_shape() {
    assert!(is_pattern_text("a\nb\n"));
    assert!(is_pattern_text("\n\n"));
    assert!(is_pattern_text(&text("quad", "yellow", &["##", "##"])));
    assert!(!is_pattern_text(""));
    assert!(!is_pattern_text("name"));
    assert!(!is_pattern_text("name\n"));
    assert!(!is_pattern_text("name\ncolor"));
}

#[test]
fn pattern_duplicate_holds_the_same() {
    let p = Pattern::from_emoji(&text("quad", "yellow", &["##", "##"]));
    let q = p.duplicate();
    assert_eq!(q.name, p.name);
    assert_eq!(q.color, p.color);
    assert_eq!(q.blocks, vec![(0, 0), (1, 0), (0, -1), (1, -1)]);
}

#[test]
fn theme_sprite_by_color() {
    let sprites = ThemeSprites {
        red: 1,
        orange: 2,
        yellow: 3,
        green: 4,
        light_blue: 5,
        lime: 6,
        blue: 7,
        indigo: 8,
        purple: 9,
        scored: 10,
        empty: 11,
        hover: 12,
        invalid: 13,
    };
    let theme = Theme {
        name: String::from("default"),
        sfx: ThemeSfx { place: (), select: (), swap: (), grip: () },
        sprites,
    };
    assert_eq!(*theme.sprite_from_color(&PatternColor::Red), 1);
    assert_eq!(*theme.sprite_from_color(&PatternColor::Orange), 2);
    assert_eq!(*theme.sprite_from_color(&PatternColor::Yellow), 3);
    assert_eq!(*theme.sprite_from_color(&PatternColor::Green), 4);
    assert_eq!(*theme.sprite_from_color(&PatternColor::LightBlue), 5);
    assert_eq!(*theme.sprite_from_color(&PatternColor::Lime), 6);
    assert_eq!(*theme.sprite_from_color(&PatternColor::Blue), 7);
    assert_eq!(*theme.sprite_from_color(&PatternColor::Indigo), 8);
    assert_eq!(*theme.sprite_from_color(&PatternColor::Purple), 9);
}

#[test]
fn theme_selection() {
    let names: Vec<String> = ["night", "default", "day", "default"].iter().map(|s| s.to_string()).collect();
    assert_eq!(select_theme(&names, &Some(String::from("day"))), Ok(2));
    assert_eq!(select_theme(&names, &None), Ok(1));
    assert_eq!(select_theme(&names, &Some(String::from("dusk"))), Ok(1));
    let bare: Vec<String> = vec![String::from("night")];
    assert_eq!(select_theme(&bare, &Some(String::from("night"))), Ok(0));
    assert_eq!(select_theme(&bare, &None), Err(ConfigurationError::MissingTheme));
    assert_eq!(
        select_theme(&bare, &Some(String::from("dusk"))),
        Err(ConfigurationError::MissingTheme)
    );
}

#[test]
fn campaign_levels_find_their_maps() {
    let maps = vec![map("a"), map("b"), map("a")];
    assert_eq!(find_map(&maps, &String::from("a")), Some(0));
    assert_eq!(find_map(&maps, &String::from("b")), Some(1));
    assert_eq!(find_map(&maps, &String::from("c")), None);
    let description = CampaignDescription {
        name: String::from("tour"),
        levels: vec![level("b"), level("a")],
    };
    let c = Campaign::from_description(&description, &maps).unwrap();
    assert_eq!(c.name, "tour");
    assert_eq!(c.levels.len(), 2);
    assert_eq!(c.levels[0].map, 1);
    assert_eq!(c.levels[1].map, 0);
    assert_eq!(c.levels[0].objective, Objective::Score(3));
    assert_eq!(c.levels[0].options, GameOptions::default());
}

#[test]
fn campaign_with_a_missing_map_fails() {
    let maps = vec![map("a")];
    let description = CampaignDescription {
        name: String::from("tour"),
        levels: vec![level("a"), level("z")],
    };
    assert!(matches!(
        Campaign::from_description(&description, &maps),
        Err(ConfigurationError::MissingMap)
    ));
}

#[test]
fn campaign_details_levels() {
    let d = details(3, 1);
    assert_eq!(d.level_count(), 3);
    assert_eq!(d.current_level().1, 1);
    assert_eq!(d.next_level().unwrap().1, 2);
    assert!(details(3, 2).next_level().is_none());
    assert!(details(3, usize::MAX).next_level().is_none());
    assert_eq!(details(3, 0).advance().unwrap().level_index, 1);
    assert!(details(3, 2).advance().is_none());
}

#[test]
fn game_type_details() {
    let campaign = GameType::Campaign(details(2, 1));
    let d = campaign.get_details();
    assert_eq!(d.map, 0);
    assert_eq!(d.objective, Objective::Score(3));
    assert!(campaign.get_campaign().is_some());
    let other = GameType::Other(GameDetails { map: 4, options: GameOptions::endless(), objective: Objective::FreePlay });
    let d = other.get_details();
    assert_eq!(d.map, 4);
    assert_eq!(d.options, GameOptions::endless());
    assert!(other.get_campaign().is_none());
    let default = GameType::default();
    assert!(matches!(default, GameType::Other(_)));
    assert_eq!(default.get_details().objective, Objective::FreePlay);
}

#[test]
fn game_states_compare_by_kind() {
    assert!(GameState::game().is_same_kind(&GameState::Game(GameType::Campaign(details(1, 0)))));
    assert!(GameState::pre_game().is_same_kind(&GameState::pre_game()));
    assert!(!GameState::pre_game().is_same_kind(&GameState::game()));
    assert!(GameState::load().is_same_kind(&GameState::default()));
    assert!(!GameState::menu().is_same_kind(&GameState::pause()));
    assert!(GameState::edit().is_same_kind(&GameState::edit()));
    assert!(GameState::post_game().is_same_kind(&GameState::post_game()));
    assert_eq!(GameResult::default(), GameResult::Lose);
    assert!(GameState::game() == GameState::Game(GameType::Campaign(details(1, 0))));
    assert!(GameState::game() != GameState::pre_game());
    assert!(GameState::default() == GameState::Load);
}

fn post(game_type: GameType, result: GameResult) -> PostGameDetails {
    PostGameDetails { game_type, score: 12, result }
}

#[test]
fn follow_up_after_a_game() {
    let won = post(GameType::Campaign(details(3, 0)), GameResult::Win).follow_up();
    assert!(matches!(won, Some(GameType::Campaign(c)) if c.level_index == 1));
    let lost = post(GameType::Campaign(details(3, 0)), GameResult::Lose).follow_up();
    assert!(matches!(lost, Some(GameType::Campaign(c)) if c.level_index == 0));
    assert!(post(GameType::Campaign(details(3, 2)), GameResult::Win).follow_up().is_none());
    let endless = post(GameType::Endless(GameDetails::default()), GameResult::Lose).follow_up();
    assert!(matches!(endless, Some(GameType::Endless(_))));
    let other = post(GameType::Other(GameDetails::default()), GameResult::Win).follow_up();
    assert!(matches!(other, Some(GameType::Other(_))));
}

#[test]
fn save_after_a_campaign_win() {
    let first = Timestamp { secs: 100, nanos: 1 };
    let second = Timestamp { secs: 200, nanos: 2 };
    let won = post(GameType::Campaign(details(3, 0)), GameResult::Win);
    let fresh = progress_at(&won, None, first, second).unwrap();
    assert_eq!(fresh.created_at, first);
    assert_eq!(fresh.updated_at, second);
    assert_eq!(fresh.campaign, "tour");
    assert_eq!(fresh.level, 0);
    let old = Save::stamped(String::from("tour"), 0, Timestamp { secs: 5, nanos: 0 }, Timestamp { secs: 6, nanos: 0 });
    let moved = progress_at(&won, Some(&old), first, second).unwrap();
    assert_eq!(moved.created_at, Timestamp { secs: 5, nanos: 0 });
    assert_eq!(moved.updated_at, second);
    assert_eq!(moved.campaign, "tour");
    assert_eq!(moved.level, 1);
}

#[test]
fn no_save_without_a_win_with_a_level_to_go() {
    let t = Timestamp { secs: 0, nanos: 0 };
    assert!(progress_at(&post(GameType::Campaign(details(3, 0)), GameResult::Lose), None, t, t).is_none());
    assert!(progress_at(&post(GameType::Campaign(details(3, 2)), GameResult::Win), None, t, t).is_none());
    assert!(progress_at(&post(GameType::Endless(GameDetails::default()), GameResult::Win), None, t, t).is_none());
    assert!(progress_at(&post(GameType::Other(GameDetails::default()), GameResult::Win), None, t, t).is_none());
    assert!(progress(&post(GameType::Other(GameDetails::default()), GameResult::Win), None).is_none());
}

#[test]
fn save_reads_the_clock() {
    let s = Save::new(String::from("tour"), 2);
    assert_eq!(s.campaign, "tour");
    assert_eq!(s.level, 2);
    // the clock of a machine that runs this is set after the year 2001
    assert!(s.created_at.secs > 1_000_000_000);
    assert!(s.updated_at.secs >= s.created_at.secs - 1);
    assert!(s.created_at.nanos < 2_000_000_000);
    let later = s.advanced(3, Timestamp { secs: 7, nanos: 8 });
    assert_eq!(later.created_at, s.created_at);
    assert_eq!(later.updated_at, Timestamp { secs: 7, nanos: 8 });
    assert_eq!(later.level, 3);
    let won = post(GameType::Campaign(details(3, 0)), GameResult::Win);
    let made = progress(&won, Some(&s)).unwrap();
    assert_eq!(made.level, 1);
    assert_eq!(made.created_at, s.created_at);
    assert!(made.updated_at.secs > 1_000_000_000);
}
