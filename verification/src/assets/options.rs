//! Gameplay options of a level.

use crate::time::Span;
use vstd::prelude::*;

verus! {

/// Along which axis full lines score.
#[derive(Clone, Copy, Debug, PartialEq, Eq, Structural, Hash)]
pub enum ScoreDirection {
    Vertical,
    Horizontal,
    Both,
}

/// The rule that decides which filled cells are cleared.
#[derive(Clone, Copy, Debug, PartialEq, Eq, Structural, Hash)]
pub enum Scorer {
    /// An axis-aligned square of this side, filled completely, scores.
    /// Sides under three let small pieces score by themselves.
    Square(usize),
    /// A line filled from one edge of the board to the other scores.
    Line(ScoreDirection),
}

impl Default for Scorer {
    fn default() -> (s: Scorer)
        ensures
            s == Scorer::Square(3),
    {
        Scorer::Square(3)
    }
}

/// How long the player has to place a piece, as the round goes on.
#[derive(Clone, Copy, Debug, PartialEq, Eq, Structural, Hash)]
pub enum TimerRate {
    /// Always the same time.
    Constant(Span),
    /// `start_rate` for the first `delay` steps, then a straight line to
    /// `end_rate`, which is reached `steps` steps later and kept.
    Progressive { start_rate: Span, end_rate: Span, steps: usize, delay: usize },
    /// `start_rate` for the first `delay` steps, then `delta` less with each
    /// step, but never less than `end_rate`.
    Endless { start_rate: Span, end_rate: Span, delta: Span, delay: usize },
}

impl Default for TimerRate {
    fn default() -> (r: TimerRate)
        ensures
            r == (TimerRate::Progressive {
                start_rate: Span { nanos: 3_000_000_000 },
                end_rate: Span { nanos: 1_500_000_000 },
                steps: 16,
                delay: 0,
            }),
    {
        TimerRate::Progressive {
            start_rate: Span::from_nanos(3_000_000_000),
            end_rate: Span::from_nanos(1_500_000_000),
            steps: 16,
            delay: 0,
        }
    }
}

/// The options of a level. Where a description leaves a field out, the
/// value of `GameOptions::default` stands in.
#[derive(Clone, Debug, PartialEq, Eq, Hash)]
pub struct GameOptions {
    /// Whether the active piece can be rotated.
    pub can_rotate: bool,
    /// Whether the active piece can be swapped with the hold.
    pub can_hold: bool,
    /// Whether the next piece is shown.
    pub can_peek: bool,
    /// How the placement timer changes with the steps.
    pub timer_rate: TimerRate,
    /// The names of the patterns in play; all patterns where `None`.
    pub patterns: Option<Vec<String>>,
    /// The scoring rule.
    pub scorer: Scorer,
    /// The name of a theme to use in place of the campaign's.
    pub theme: Option<String>,
}

impl Default for GameOptions {
    fn default() -> (o: GameOptions)
        ensures
            o@ == GameOptions::default_view(),
    {
        GameOptions {
            can_rotate: true,
            can_hold: true,
            can_peek: true,
            timer_rate: TimerRate::Constant(Span::from_nanos(3_000_000_000)),
            patterns: None,
            scorer: Scorer::Square(3),
            theme: None,
        }
    }
}

/// What a set of options holds.
pub struct GameOptionsView {
    pub can_rotate: bool,
    pub can_hold: bool,
    pub can_peek: bool,
    pub timer_rate: TimerRate,
    pub patterns: Option<Seq<String>>,
    pub scorer: Scorer,
    pub theme: Option<String>,
}

impl View for GameOptions {
    type V = GameOptionsView;

    open spec fn view(&self) -> GameOptionsView {
        GameOptionsView {
            can_rotate: self.can_rotate,
            can_hold: self.can_hold,
            can_peek: self.can_peek,
            timer_rate: self.timer_rate,
            patterns: match self.patterns {
                Some(names) => Some(names@),
                None => None,
            },
            scorer: self.scorer,
            theme: self.theme,
        }
    }
}

/// A list of the same names.
pub fn duplicate_names(names: &Vec<String>) -> (copy: Vec<String>)
    ensures
        copy@ == names@,
{
    let mut copy: Vec<String> = Vec::new();
    let mut i: usize = 0;
    while i < names.len()
        invariant
            i <= names.len(),
            copy@ == names@.take(i as int),
        decreases names.len() - i,
    {
        copy.push(names[i].clone());
        proof {
            assert(names@.take(i as int).push(names@[i as int]) =~= names@.take(i + 1));
        }
        i += 1;
    }
    proof {
        assert(names@.take(i as int) =~= names@);
    }
    copy
}

/// Whether `names` are the names of the patterns of the classic game.
pub open spec fn is_classic(names: Seq<String>) -> bool {
    &&& names.len() == 6
    &&& names[0]@ == "quad"@
    &&& names[1]@ == "bracket right"@
    &&& names[2]@ == "bracket left"@
    &&& names[3]@ == "pyramid"@
    &&& names[4]@ == "snake left"@
    &&& names[5]@ == "snake right"@
}

/// The patterns of the classic game, by name.
pub fn classic_patterns() -> (names: Vec<String>)
    ensures
        is_classic(names@),
{
    let mut names: Vec<String> = Vec::new();
    names.push("quad".to_owned());
    names.push("bracket right".to_owned());
    names.push("bracket left".to_owned());
    names.push("pyramid".to_owned());
    names.push("snake left".to_owned());
    names.push("snake right".to_owned());
    names
}

impl GameOptions {
    /// What the default options hold: everything allowed, three seconds
    /// for every piece, all patterns, squares of three, no theme.
    pub open spec fn default_view() -> GameOptionsView {
        GameOptionsView {
            can_rotate: true,
            can_hold: true,
            can_peek: true,
            timer_rate: TimerRate::Constant(Span { nanos: 3_000_000_000 }),
            patterns: None,
            scorer: Scorer::Square(3),
            theme: None,
        }
    }

    /// Options that hold the same.
    pub fn duplicate(&self) -> (o: GameOptions)
        ensures
            o@ == self@,
    {
        GameOptions {
            can_rotate: self.can_rotate,
            can_hold: self.can_hold,
            can_peek: self.can_peek,
            timer_rate: self.timer_rate,
            patterns: match &self.patterns {
                Some(names) => Some(duplicate_names(names)),
                None => None,
            },
            scorer: self.scorer,
            theme: match &self.theme {
                Some(name) => Some(name.clone()),
                None => None,
            },
        }
    }

    /// The options of the endless mode: the classic patterns, squares of
    /// three, and a timer that goes from three seconds to half a second
    /// over 64 steps after the first eight.
    pub fn endless() -> (o: GameOptions)
        ensures
            o.can_rotate && o.can_hold && o.can_peek,
            o.timer_rate == (TimerRate::Progressive {
                start_rate: Span { nanos: 3_000_000_000 },
                end_rate: Span { nanos: 500_000_000 },
                steps: 64,
                delay: 8,
            }),
            o.patterns is Some,
            is_classic(o.patterns->0@),
            o.scorer == Scorer::Square(3),
            o.theme is None,
    {
        GameOptions {
            can_rotate: true,
            can_hold: true,
            can_peek: true,
            timer_rate: TimerRate::Progressive {
                start_rate: Span::from_nanos(3_000_000_000),
                end_rate: Span::from_nanos(500_000_000),
                steps: 64,
                delay: 8,
            },
            patterns: Some(classic_patterns()),
            scorer: Scorer::Square(3),
            theme: None,
        }
    }
}

} // verus!
