use pz::assets::campaign::Objective;
use pz::assets::map::MapAsset;
use pz::assets::options::{GameOptions, ScoreDirection, Scorer, TimerRate};
use pz::assets::pattern::{Pattern, PatternColor};
use pz::components::active::Turn;
use pz::components::tiles::{TileState, TileStyle};
use pz::error::ConfigurationError;
use pz::events::{GameEvent, Intent};
use pz::game::round::{CommitResult, RoundContext, RoundState};
use pz::resources::input::ActivePositionMode;
use pz::state::{GameDetails, GameResult, GameType};
use pz::time::Span;

fn grid(w: isize, h: isize) -> MapAsset {
    let mut pattern = vec![];
    for x in 0..w {
        for y in 0..h {
            pattern.push((x, y));
        }
    }
    MapAsset { name: String::from("grid"), pattern }
}

fn dot() -> Pattern {
    Pattern { name: String::from("dot"), color: PatternColor::Blue, blocks: vec![(0, 0)] }
}

fn bar() -> Pattern {
    Pattern { name: String::from("bar"), color: PatternColor::Green, blocks: vec![(0, 0), (1, 0)] }
}

fn options(scorer: Scorer) -> GameOptions {
    let mut o = GameOptions::default();
    o.scorer = scorer;
    o.timer_rate = TimerRate::Constant(Span::from_secs(3));
    o
}

fn round_of(
    map: &MapAsset,
    patterns: Vec<Pattern>,
    options: GameOptions,
    objective: Objective,
    at: (isize, isize),
) -> RoundContext {
    RoundContext::setup(map, patterns, options, objective, ActivePositionMode::Mouse, at).unwrap()
}

fn dots(at: (isize, isize)) -> RoundContext {
    round_of(&grid(4, 4), vec![dot()], options(Scorer::Square(3)), Objective::FreePlay, at)
}

fn state_at(round: &RoundContext, x: isize, y: isize) -> TileState {
    let i = round.board().find(x as i128, y as i128).unwrap();
    round.board().tile(i).state
}

fn style_at(round: &RoundContext, x: isize, y: isize) -> TileStyle {
    let i = round.board().find(x as i128, y as i128).unwrap();
    round.board().tile(i).style
}

fn full_count(round: &RoundContext) -> usize {
    (0..round.board().len())
        .filter(|i| matches!(round.board().tile(*i).state, TileState::Full(_)))
        .count()
}

#[test]
fn setup_starts_an_active_round() {
    let round = dots((1, 2));
    assert_eq!(round.state(), RoundState::Active);
    assert_eq!(round.result(), None);
    assert_eq!(round.score(), 0);
    assert_eq!(round.step(), 0);
    assert_eq!(round.elapsed(), Span::zero());
    assert!(round.hold().get().is_none());
    assert_eq!(round.board().len(), 16);
    assert_eq!(full_count(&round), 0);
    assert_eq!(round.next(), 0);
    assert_eq!(round.active().position(), (1, 2));
    assert_eq!(round.active().turns(), 0);
    assert!(!round.active().unswappable());
    assert_eq!(round.active().pattern().name, "dot");
    assert_eq!(round.active().timer().duration(), Span::from_secs(3));
    assert!(round.scored().is_empty());
    assert!(round.has_room());
}

#[test]
fn setup_with_the_keyboard_starts_at_the_origin() {
    let round = RoundContext::setup(
        &grid(4, 4),
        vec![dot()],
        options(Scorer::Square(3)),
        Objective::FreePlay,
        ActivePositionMode::Keyboard,
        (3, 3),
    )
    .unwrap();
    assert_eq!(round.active().position(), (0, 0));
}

#[test]
fn setup_styles_the_board_for_the_first_piece() {
    let round = dots((1, 2));
    assert_eq!(style_at(&round, 1, 2), TileStyle::Hover);
    assert_eq!(style_at(&round, 0, 0), TileStyle::Plain);
}

#[test]
fn setup_without_an_allowed_pattern_fails() {
    let mut o = options(Scorer::Square(3));
    o.patterns = Some(vec![String::from("nothing")]);
    let r = RoundContext::setup(
        &grid(4, 4),
        vec![dot(), bar()],
        o,
        Objective::FreePlay,
        ActivePositionMode::Mouse,
        (0, 0),
    );
    assert!(matches!(r, Err(ConfigurationError::EmptyPatternPool)));
}

#[test]
fn setup_without_patterns_fails() {
    let r = RoundContext::setup(
        &grid(4, 4),
        vec![],
        options(Scorer::Square(3)),
        Objective::FreePlay,
        ActivePositionMode::Mouse,
        (0, 0),
    );
    assert!(matches!(r, Err(ConfigurationError::EmptyPatternPool)));
}

#[test]
fn setup_takes_only_the_allowed_patterns() {
    let mut o = options(Scorer::Square(3));
    o.patterns = Some(vec![String::from("bar")]);
    for _ in 0..10 {
        let round = round_of(&grid(4, 4), vec![dot(), bar()], o.clone(), Objective::FreePlay, (0, 0));
        assert_eq!(round.active().pattern().name, "bar");
        assert_eq!(round.next(), 1);
    }
}

#[test]
fn setup_draws_two_different_patterns_from_a_pool_of_two() {
    for _ in 0..10 {
        let round = round_of(
            &grid(4, 4),
            vec![dot(), bar()],
            options(Scorer::Square(3)),
            Objective::FreePlay,
            (0, 0),
        );
        let active = if round.active().pattern().name == "dot" { 0 } else { 1 };
        assert_ne!(round.next(), active);
    }
}

#[test]
fn commit_puts_the_piece_on_the_board() {
    let mut round = dots((1, 2));
    assert_eq!(round.commit(false), CommitResult::Committed);
    assert_eq!(state_at(&round, 1, 2), TileState::Full(PatternColor::Blue));
    assert_eq!(full_count(&round), 1);
    assert_eq!(round.step(), 1);
    assert_eq!(round.score(), 0);
    assert_eq!(round.state(), RoundState::Active);
    // the new piece is at the pointer, over the cell just filled
    assert_eq!(round.active().position(), (1, 2));
    assert_eq!(style_at(&round, 1, 2), TileStyle::Invalid);
}

#[test]
fn commit_over_a_full_cell_is_rejected_and_changes_nothing() {
    let mut round = dots((1, 2));
    round.commit(false);
    assert_eq!(round.commit(false), CommitResult::Rejected);
    assert_eq!(full_count(&round), 1);
    assert_eq!(round.step(), 1);
    assert_eq!(round.state(), RoundState::Active);
    assert_eq!(round.active().position(), (1, 2));
}

#[test]
fn commit_beside_the_board_is_rejected() {
    let mut round = dots((4, 0));
    assert_eq!(round.commit(false), CommitResult::Rejected);
    assert_eq!(full_count(&round), 0);
    assert_eq!(round.step(), 0);
}

#[test]
fn commit_half_on_the_board_is_rejected() {
    let mut round =
        round_of(&grid(4, 4), vec![bar()], options(Scorer::Square(3)), Objective::FreePlay, (3, 0));
    assert_eq!(style_at(&round, 3, 0), TileStyle::Hover);
    assert_eq!(round.commit(false), CommitResult::Rejected);
    assert_eq!(full_count(&round), 0);
}

#[test]
fn commit_of_a_piece_with_a_block_twice_is_rejected() {
    let twice = Pattern {
        name: String::from("twice"),
        color: PatternColor::Red,
        blocks: vec![(0, 0), (0, 0)],
    };
    let mut round =
        round_of(&grid(4, 4), vec![twice], options(Scorer::Square(3)), Objective::FreePlay, (1, 1));
    assert_eq!(round.commit(false), CommitResult::Rejected);
    assert_eq!(full_count(&round), 0);
}

#[test]
fn forced_commit_that_fits_goes_on() {
    let mut round = dots((0, 0));
    assert_eq!(round.commit(true), CommitResult::Committed);
    assert_eq!(round.state(), RoundState::Active);
    assert_eq!(round.step(), 1);
}

#[test]
fn forced_commit_that_does_not_fit_loses_under_every_objective() {
    let objectives = [
        Objective::FreePlay,
        Objective::Survive(Span::from_secs(1000)),
        Objective::Survive(Span::zero()),
        Objective::TimeLimit { required_score: 0, duration: Span::zero() },
        Objective::Score(0),
        Objective::Score(1000),
    ];
    for objective in objectives {
        let mut round =
            round_of(&grid(4, 4), vec![dot()], options(Scorer::Square(3)), objective, (9, 9));
        assert_eq!(round.commit(true), CommitResult::Rejected);
        assert_eq!(round.state(), RoundState::Lost);
        assert_eq!(round.result(), Some(GameResult::Lose));
        assert_eq!(round.step(), 0);
    }
}

#[test]
fn timer_expiry_commits_a_piece_that_fits() {
    let mut round = dots((2, 2));
    assert_eq!(round.tick(Span::from_secs(2)), RoundState::Active);
    assert_eq!(full_count(&round), 0);
    assert_eq!(round.tick(Span::from_secs(1)), RoundState::Active);
    assert_eq!(state_at(&round, 2, 2), TileState::Full(PatternColor::Blue));
    assert_eq!(round.step(), 1);
    assert_eq!(round.elapsed(), Span::from_secs(3));
    // the new piece has a fresh timer
    assert_eq!(round.active().timer().elapsed(), Span::zero());
}

#[test]
fn timer_expiry_over_a_full_cell_loses_under_every_objective() {
    let objectives = [
        Objective::FreePlay,
        Objective::Survive(Span::from_secs(1000)),
        Objective::Survive(Span::from_secs(1)),
        Objective::TimeLimit { required_score: 0, duration: Span::from_secs(1) },
        Objective::Score(1000),
    ];
    for objective in objectives {
        let mut round =
            round_of(&grid(4, 4), vec![dot()], options(Scorer::Square(3)), objective, (2, 2));
        assert_eq!(round.commit(false), CommitResult::Committed);
        assert_eq!(round.state(), RoundState::Active);
        assert_eq!(round.tick(Span::from_secs(3)), RoundState::Lost);
        assert_eq!(round.result(), Some(GameResult::Lose));
        assert_eq!(full_count(&round), 1);
        assert_eq!(round.step(), 1);
    }
}

#[test]
fn timer_expiry_beside_the_board_loses() {
    let mut round = dots((-1, 0));
    assert_eq!(round.tick(Span::from_secs(3)), RoundState::Lost);
}

#[test]
fn tick_judges_the_objective() {
    let mut o = options(Scorer::Square(3));
    o.timer_rate = TimerRate::Constant(Span::from_secs(1000));
    let mut survive = round_of(
        &grid(4, 4),
        vec![dot()],
        o.clone(),
        Objective::Survive(Span::from_secs(5)),
        (0, 0),
    );
    assert_eq!(survive.tick(Span::from_secs(4)), RoundState::Active);
    assert_eq!(survive.tick(Span::from_secs(1)), RoundState::Won);
    assert_eq!(survive.result(), Some(GameResult::Win));

    let mut limit = round_of(
        &grid(4, 4),
        vec![dot()],
        o,
        Objective::TimeLimit { required_score: 1, duration: Span::from_secs(5) },
        (0, 0),
    );
    assert_eq!(limit.tick(Span::from_secs(4)), RoundState::Active);
    assert_eq!(limit.tick(Span::from_secs(1)), RoundState::Lost);
}

#[test]
fn a_finished_round_stays_as_it_is() {
    let mut round = dots((9, 9));
    round.commit(true);
    assert_eq!(round.state(), RoundState::Lost);
    round.point(0, 0);
    assert_eq!(round.active().position(), (9, 9));
    round.nudge(1, 1);
    assert_eq!(round.active().position(), (9, 9));
    assert!(!round.rotate(Turn::Left));
    assert!(!round.hold_swap());
    assert_eq!(round.commit(false), CommitResult::Rejected);
    assert_eq!(round.tick(Span::from_secs(10)), RoundState::Lost);
    assert_eq!(round.elapsed(), Span::zero());
    assert_eq!(round.step(), 0);
}

#[test]
fn square_rule_clears_and_scores_on_commit() {
    let mut round =
        round_of(&grid(2, 2), vec![dot()], options(Scorer::Square(2)), Objective::FreePlay, (0, 0));
    for at in [(0, 0), (1, 0), (0, 1)] {
        round.point(at.0, at.1);
        assert_eq!(round.commit(false), CommitResult::Committed);
        assert_eq!(round.score(), 0);
    }
    assert_eq!(full_count(&round), 3);
    round.point(1, 1);
    assert_eq!(round.commit(false), CommitResult::Committed);
    assert_eq!(round.score(), 4);
    assert_eq!(full_count(&round), 0);
    assert_eq!(round.step(), 4);
    assert_eq!(round.scored().len(), 4);
    for effect in round.scored().iter() {
        assert_eq!(effect.tile.state, TileState::Scored);
        assert_eq!(effect.timer.duration(), Span::from_secs(1));
    }
    // the cleared cell under the new piece is hovered again
    assert_eq!(style_at(&round, 1, 1), TileStyle::Hover);
}

#[test]
fn line_rule_clears_and_scores_on_commit() {
    let mut round = round_of(
        &grid(2, 2),
        vec![bar()],
        options(Scorer::Line(ScoreDirection::Horizontal)),
        Objective::FreePlay,
        (0, 1),
    );
    assert_eq!(round.commit(false), CommitResult::Committed);
    assert_eq!(round.score(), 2);
    assert_eq!(full_count(&round), 0);
}

#[test]
fn vertical_line_rule_leaves_a_row() {
    let mut round = round_of(
        &grid(2, 2),
        vec![bar()],
        options(Scorer::Line(ScoreDirection::Vertical)),
        Objective::FreePlay,
        (0, 1),
    );
    assert_eq!(round.commit(false), CommitResult::Committed);
    assert_eq!(round.score(), 0);
    assert_eq!(full_count(&round), 2);
}

#[test]
fn score_objective_is_won_by_the_commit_that_reaches_it() {
    let mut round = round_of(
        &grid(2, 1),
        vec![bar()],
        options(Scorer::Line(ScoreDirection::Horizontal)),
        Objective::Score(2),
        (0, 0),
    );
    assert_eq!(round.commit(false), CommitResult::Committed);
    assert_eq!(round.score(), 2);
    assert_eq!(round.state(), RoundState::Won);
}

#[test]
fn decorations_fade_after_a_second() {
    let mut o = options(Scorer::Square(1));
    o.timer_rate = TimerRate::Constant(Span::from_secs(1000));
    let mut round = round_of(&grid(2, 2), vec![dot()], o, Objective::FreePlay, (0, 0));
    round.commit(false);
    assert_eq!(round.score(), 1);
    assert_eq!(round.scored().len(), 1);
    assert_eq!((round.scored()[0].tile.x, round.scored()[0].tile.y), (0, 0));
    round.tick(Span::from_millis(400));
    assert_eq!(round.scored().len(), 1);
    assert_eq!(round.scored()[0].timer.elapsed(), Span::from_millis(400));
    round.point(1, 1);
    round.commit(false);
    assert_eq!(round.scored().len(), 2);
    round.tick(Span::from_millis(600));
    assert_eq!(round.scored().len(), 1);
    assert_eq!((round.scored()[0].tile.x, round.scored()[0].tile.y), (1, 1));
    round.tick(Span::from_millis(400));
    assert!(round.scored().is_empty());
}

#[test]
fn hold_swap_puts_the_piece_aside_once() {
    let mut o = options(Scorer::Square(3));
    o.patterns = Some(vec![String::from("dot")]);
    let mut round = round_of(&grid(4, 4), vec![dot(), bar()], o, Objective::FreePlay, (1, 1));
    assert!(round.hold_swap());
    assert_eq!(round.hold().get().unwrap().name, "dot");
    assert!(round.active().unswappable());
    assert_eq!(round.active().pattern().name, "dot");
    assert_eq!(round.next(), 0);
    // a second swap in a row is not taken
    assert!(!round.hold_swap());
    assert!(round.active().unswappable());
    assert_eq!(round.hold().get().unwrap().name, "dot");
    assert_eq!(round.step(), 0);
}

#[test]
fn hold_swap_is_open_again_after_a_commit() {
    let mut round = dots((1, 1));
    assert!(round.hold_swap());
    assert!(!round.hold_swap());
    assert_eq!(round.commit(false), CommitResult::Committed);
    assert!(!round.active().unswappable());
    assert!(round.hold_swap());
    assert!(!round.hold_swap());
}

#[test]
fn hold_swap_gives_back_what_was_held() {
    let mut first = true;
    // with two patterns the first piece is one or the other: both ways work
    for _ in 0..10 {
        let mut round = round_of(
            &grid(4, 4),
            vec![dot(), bar()],
            options(Scorer::Square(3)),
            Objective::FreePlay,
            (0, 0),
        );
        let started_with = round.active().pattern().name.clone();
        let other = if started_with == "dot" { "bar" } else { "dot" };
        assert!(round.hold_swap());
        // the hold was empty: the next pattern in line comes into play
        assert_eq!(round.active().pattern().name, other);
        assert_eq!(round.hold().get().unwrap().name, started_with);
        assert_eq!(round.commit(false), CommitResult::Committed);
        let in_play = round.active().pattern().name.clone();
        assert!(round.hold_swap());
        assert_eq!(round.active().pattern().name, started_with);
        assert_eq!(round.hold().get().unwrap().name, in_play);
        first = false;
    }
    assert!(!first);
}

#[test]
fn hold_swap_starts_a_fresh_timer() {
    let mut round = dots((1, 1));
    round.tick(Span::from_secs(2));
    assert_eq!(round.active().timer().elapsed(), Span::from_secs(2));
    assert!(round.hold_swap());
    assert_eq!(round.active().timer().elapsed(), Span::zero());
}

#[test]
fn rotate_turns_the_piece_about_its_origin() {
    let mut round =
        round_of(&grid(4, 4), vec![bar()], options(Scorer::Square(3)), Objective::FreePlay, (1, 1));
    assert!(round.active().covers(1, 1) && round.active().covers(2, 1));
    assert!(round.rotate(Turn::Left));
    assert_eq!(round.active().turns(), 1);
    assert!(round.active().covers(1, 1) && round.active().covers(1, 2));
    assert!(!round.active().covers(2, 1));
    assert_eq!(style_at(&round, 1, 2), TileStyle::Hover);
    assert_eq!(style_at(&round, 2, 1), TileStyle::Plain);
    assert!(round.rotate(Turn::Left));
    assert!(round.active().covers(0, 1));
    assert!(round.rotate(Turn::Left));
    assert!(round.active().covers(1, 0));
    assert!(round.rotate(Turn::Left));
    assert_eq!(round.active().turns(), 0);
    assert!(round.rotate(Turn::Right));
    assert_eq!(round.active().turns(), 3);
    assert!(round.active().covers(1, 0));
}

#[test]
fn rotate_is_not_taken_where_the_options_forbid_it() {
    let mut o = options(Scorer::Square(3));
    o.can_rotate = false;
    let mut round = round_of(&grid(4, 4), vec![bar()], o, Objective::FreePlay, (1, 1));
    assert!(!round.rotate(Turn::Left));
    assert_eq!(round.active().turns(), 0);
    assert!(round.active().covers(2, 1));
}

#[test]
fn nudge_moves_by_cells_and_keeps_the_place_for_the_next_piece() {
    let mut round = dots((1, 1));
    round.nudge(1, 0);
    round.nudge(0, 2);
    assert_eq!(round.active().position(), (2, 3));
    assert_eq!(style_at(&round, 2, 3), TileStyle::Hover);
    assert_eq!(style_at(&round, 1, 1), TileStyle::Plain);
    assert_eq!(round.commit(false), CommitResult::Committed);
    // the keyboard steers: the new piece is where the last one was
    assert_eq!(round.active().position(), (2, 3));
}

#[test]
fn nudge_stops_at_the_largest_coordinate() {
    let mut round = dots((isize::MAX, isize::MIN));
    round.nudge(5, -5);
    assert_eq!(round.active().position(), (isize::MAX, isize::MIN));
}

#[test]
fn keyboard_keeps_the_turn_for_the_next_piece_and_the_pointer_does_not() {
    let mut round =
        round_of(&grid(4, 4), vec![bar()], options(Scorer::Square(3)), Objective::FreePlay, (0, 0));
    round.nudge(0, 0);
    round.rotate(Turn::Left);
    assert_eq!(round.commit(false), CommitResult::Committed);
    assert_eq!(round.active().turns(), 1);
    round.point(2, 0);
    assert_eq!(round.commit(false), CommitResult::Committed);
    assert_eq!(round.active().turns(), 0);
    assert_eq!(round.active().position(), (2, 0));
}

#[test]
fn piece_at_the_edge_of_the_coordinates_does_not_fit() {
    let mut round =
        round_of(&grid(2, 2), vec![bar()], options(Scorer::Square(3)), Objective::FreePlay, (0, 0));
    round.point(isize::MAX, 0);
    assert!(round.active().covers(isize::MAX, 0));
    assert_eq!(round.commit(false), CommitResult::Rejected);
}

#[test]
fn events_are_handled() {
    let mut round = dots((1, 1));
    let r = round.process_event(GameEvent::SetActivePattern { pattern: bar(), unswappable: true });
    assert!(r.is_none());
    assert_eq!(round.active().pattern().name, "bar");
    assert!(round.active().unswappable());
    assert!(!round.hold_swap());
    assert_eq!(round.process_event(GameEvent::CommitActive), Some(CommitResult::Committed));
    assert_eq!(round.active().pattern().name, "dot");
    assert_eq!(round.process_event(GameEvent::CommitActive), Some(CommitResult::Rejected));
    assert_eq!(round.state(), RoundState::Active);
    assert_eq!(round.process_event(GameEvent::TimerCommitActive), Some(CommitResult::Rejected));
    assert_eq!(round.state(), RoundState::Lost);
}

#[test]
fn the_timer_follows_the_steps() {
    let mut o = options(Scorer::Square(3));
    o.timer_rate = TimerRate::Progressive {
        start_rate: Span::from_millis(3000),
        end_rate: Span::from_millis(500),
        steps: 10,
        delay: 0,
    };
    let mut round = round_of(&grid(4, 4), vec![dot()], o, Objective::FreePlay, (0, 0));
    assert_eq!(round.active().timer().duration(), Span::from_millis(3000));
    round.commit(false);
    assert_eq!(round.active().timer().duration(), Span::from_millis(2750));
    round.point(1, 0);
    round.commit(false);
    assert_eq!(round.active().timer().duration(), Span::from_millis(2500));
}

#[test]
fn post_game_details_come_with_the_end() {
    let mut round = round_of(
        &grid(2, 1),
        vec![bar()],
        options(Scorer::Line(ScoreDirection::Horizontal)),
        Objective::Score(2),
        (0, 0),
    );
    assert!(round.post_game(GameType::Endless(GameDetails::default())).is_none());
    round.commit(false);
    let details = round.post_game(GameType::Endless(GameDetails::default())).unwrap();
    assert_eq!(details.score, 2);
    assert_eq!(details.result, GameResult::Win);
    assert!(matches!(details.game_type, GameType::Endless(_)));
    let mut lost = dots((9, 9));
    lost.commit(true);
    let details = lost.post_game(GameType::default()).unwrap();
    assert_eq!(details.score, 0);
    assert_eq!(details.result, GameResult::Lose);
}

#[test]
fn speed_follows_the_steps() {
    let mut o = options(Scorer::Square(3));
    o.timer_rate = TimerRate::Progressive {
        start_rate: Span::from_millis(3000),
        end_rate: Span::from_millis(500),
        steps: 4,
        delay: 1,
    };
    let mut round = round_of(&grid(4, 4), vec![dot()], o, Objective::FreePlay, (0, 0));
    assert_eq!(round.speed().map(|r| (r.num, r.den)), Some((0, 1)));
    round.commit(false);
    round.point(1, 0);
    round.commit(false);
    assert_eq!(round.speed().map(|r| (r.num, r.den)), Some((1, 4)));
    assert_eq!(round.objective(), Objective::FreePlay);
    assert_eq!(round.mode(), ActivePositionMode::Mouse);
    assert_eq!(round.cursor(), (1, 0));
    assert_eq!(round.patterns().len(), 1);
    assert_eq!(round.options().scorer, Scorer::Square(3));
}

#[test]
fn scoring_a_board_again_clears_nothing_more() {
    let mut round =
        round_of(&grid(2, 2), vec![dot()], options(Scorer::Square(1)), Objective::FreePlay, (0, 0));
    round.commit(false);
    assert_eq!(round.score(), 1);
    assert!(pz::game::scorer::score(round.board(), Scorer::Square(1)).is_empty());
}

#[test]
fn intents_are_handled() {
    let mut round =
        round_of(&grid(4, 4), vec![bar()], options(Scorer::Square(3)), Objective::FreePlay, (0, 0));
    assert_eq!(round.handle(Intent::MoveTo(1, 1)), None);
    assert_eq!(round.active().position(), (1, 1));
    assert_eq!(round.mode(), ActivePositionMode::Mouse);
    assert_eq!(round.handle(Intent::MoveBy(1, 0)), None);
    assert_eq!(round.active().position(), (2, 1));
    assert_eq!(round.mode(), ActivePositionMode::Keyboard);
    assert_eq!(round.handle(Intent::Rotate(Turn::Left)), None);
    assert_eq!(round.active().turns(), 1);
    assert_eq!(round.handle(Intent::HoldSwap), None);
    assert!(round.active().unswappable());
    assert_eq!(round.handle(Intent::Commit), Some(CommitResult::Committed));
    assert_eq!(round.step(), 1);
    assert_eq!(round.handle(Intent::Commit), Some(CommitResult::Rejected));
    assert_eq!(round.state(), RoundState::Active);
}
