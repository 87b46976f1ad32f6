//! Whether a round is won, lost or goes on.

use crate::assets::campaign::Objective;
use crate::time::Span;
use vstd::prelude::*;

verus! {

/// How a round stands.
#[derive(Clone, Copy, Debug, PartialEq, Eq, Structural, Hash)]
pub enum RoundOutcome {
    InProgress,
    Win,
    Lose,
}

/// How a round under `objective` stands after `elapsed` nanoseconds with
/// `score` points.
pub open spec fn outcome(objective: Objective, elapsed: nat, score: nat) -> RoundOutcome {
    match objective {
        Objective::FreePlay => RoundOutcome::InProgress,
        Objective::Survive(duration) => if elapsed >= duration@ {
            RoundOutcome::Win
        } else {
            RoundOutcome::InProgress
        },
        Objective::TimeLimit { required_score, duration } => if elapsed < duration@ {
            RoundOutcome::InProgress
        } else if score >= required_score {
            RoundOutcome::Win
        } else {
            RoundOutcome::Lose
        },
        Objective::Score(required_score) => if score >= required_score {
            RoundOutcome::Win
        } else {
            RoundOutcome::InProgress
        },
    }
}

/// Judges a round by its objective alone.
pub fn evaluate(objective: Objective, elapsed: Span, score: usize) -> (o: RoundOutcome)
    ensures
        o == outcome(objective, elapsed@, score as nat),
{
    match objective {
        Objective::FreePlay => RoundOutcome::InProgress,
        Objective::Survive(duration) => {
            if elapsed.at_least(duration) {
                RoundOutcome::Win
            } else {
                RoundOutcome::InProgress
            }
        },
        Objective::TimeLimit { required_score, duration } => {
            if !elapsed.at_least(duration) {
                RoundOutcome::InProgress
            } else if score >= required_score {
                RoundOutcome::Win
            } else {
                RoundOutcome::Lose
            }
        },
        Objective::Score(required_score) => {
            if score >= required_score {
                RoundOutcome::Win
            } else {
                RoundOutcome::InProgress
            }
        },
    }
}

} // verus!
