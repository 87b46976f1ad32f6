use pz::assets::campaign::Objective;
use pz::game::objective::{evaluate, RoundOutcome};
use pz::time::Span;

fn secs(n: u64) -> Span {
    Span::from_secs(n)
}

#[test]
fn free_play_never_ends() {
    assert_eq!(evaluate(Objective::FreePlay, secs(0), 0), RoundOutcome::InProgress);
    assert_eq!(evaluate(Objective::FreePlay, secs(100_000), usize::MAX), RoundOutcome::InProgress);
}

#[test]
fn survive_wins_when_the_time_is_up() {
    let objective = Objective::Survive(secs(30));
    assert_eq!(evaluate(objective, secs(29), 0), RoundOutcome::InProgress);
    assert_eq!(evaluate(objective, secs(30), 0), RoundOutcome::Win);
    assert_eq!(evaluate(objective, secs(31), 0), RoundOutcome::Win);
}

#[test]
fn time_limit_boundary() {
    let objective = Objective::TimeLimit { required_score: 10, duration: secs(60) };
    assert_eq!(evaluate(objective, secs(59), 5), RoundOutcome::InProgress);
    assert_eq!(evaluate(objective, secs(60), 10), RoundOutcome::Win);
    assert_eq!(evaluate(objective, secs(60), 9), RoundOutcome::Lose);
}

#[test]
fn time_limit_waits_for_the_time_even_with_the_score() {
    let objective = Objective::TimeLimit { required_score: 10, duration: secs(60) };
    assert_eq!(evaluate(objective, secs(59), 100), RoundOutcome::InProgress);
    assert_eq!(evaluate(objective, secs(61), 100), RoundOutcome::Win);
    assert_eq!(evaluate(objective, secs(61), 0), RoundOutcome::Lose);
}

#[test]
fn score_wins_when_reached() {
    let objective = Objective::Score(20);
    assert_eq!(evaluate(objective, secs(0), 19), RoundOutcome::InProgress);
    assert_eq!(evaluate(objective, secs(0), 20), RoundOutcome::Win);
    assert_eq!(evaluate(objective, secs(1000), 21), RoundOutcome::Win);
}

#[test]
fn objective_default_is_free_play() {
    assert_eq!(Objective::default(), Objective::FreePlay);
}
