//! One round, from its setup to a win or a loss.
//!
//! The round owns everything that changes while it is played: the board,
//! the bag, the active piece, the hold, the score and the step counter. It
//! is advanced by the player's intents and by ticks of the clock, and never
//! waits for anything.

use crate::assets::campaign::Objective;
use crate::assets::map::MapAsset;
use crate::assets::options::GameOptions;
use crate::assets::pattern::{Pattern, PatternView};
use crate::components::active::{clamped, turn_once, ActiveEntity, ActiveView, Turn};
use crate::components::scored::{
    decorate, decorations, effect_views, effects_wf, fade, faded, Scored, ScoredView,
};
use crate::components::tiles::{
    board_wf, clear_all, fill_all, fits, is_empty_at, laid_out, restyle_all, styled, GameBoard,
    Tile,
};
use crate::components::timer::{ticked, TimerView};
use crate::error::ConfigurationError;
use crate::events::{GameEvent, Intent};
use crate::game::objective::{evaluate, outcome, RoundOutcome};
use crate::game::scorer::{cleared, score};
use crate::resources::bag::{draws, lemma_reordered_members, Bag, BagView, PatternId};
use crate::resources::hold::Hold;
use crate::resources::input::ActivePositionMode;
use crate::resources::next::NextUp;
use crate::resources::score::Score;
use crate::resources::step::{duration_at, progress_at, Ratio, Step};
use crate::state::{GameResult, GameType, PostGameDetails};
use crate::time::{saturate, Span};
use vstd::prelude::*;
use vstd::set_lib::{lemma_int_range, lemma_len_subset, set_int_range};

verus! {

/// Where a round is in its life. A round that was set up is active; once it
/// is won or lost it stays so.
#[derive(Clone, Copy, Debug, PartialEq, Eq, Structural, Hash)]
pub enum RoundState {
    Active,
    Won,
    Lost,
}

/// What became of an attempt to commit the active piece.
#[derive(Clone, Copy, Debug, PartialEq, Eq, Structural, Hash)]
pub enum CommitResult {
    /// The piece was put on the board and a new one is in play.
    Committed,
    /// The piece did not fit; the board is as it was.
    Rejected,
}

/// Everything a round holds.
pub struct RoundContext {
    board: GameBoard,
    patterns: Vec<Pattern>,
    bag: Bag,
    next: NextUp,
    hold: Hold,
    active: ActiveEntity,
    score: Score,
    step: Step,
    options: GameOptions,
    objective: Objective,
    elapsed: Span,
    mode: ActivePositionMode,
    cursor: (isize, isize),
    state: RoundState,
    scored: Vec<Scored>,
}

/// What a round holds.
pub struct RoundView {
    pub board: Seq<Tile>,
    /// The patterns of the game; the bag's ids are places in this list.
    pub patterns: Seq<PatternView>,
    pub bag: BagView,
    pub next: PatternId,
    pub hold: Option<PatternView>,
    pub active: ActiveView,
    pub score: nat,
    pub step: nat,
    pub options: GameOptions,
    pub objective: Objective,
    /// The time played, in nanoseconds.
    pub elapsed: nat,
    pub mode: ActivePositionMode,
    /// Where the pointer was last seen, in board coordinates.
    pub cursor: (isize, isize),
    pub state: RoundState,
    /// The decorations where cells were cleared, oldest first.
    pub scored: Seq<ScoredView>,
}

/// The views of `patterns`, in order.
pub open spec fn views_of(patterns: Seq<Pattern>) -> Seq<PatternView> {
    Seq::new(patterns.len(), |i: int| patterns[i]@)
}

impl View for RoundContext {
    type V = RoundView;

    closed spec fn view(&self) -> RoundView {
        RoundView {
            board: self.board@,
            patterns: views_of(self.patterns@),
            bag: self.bag@,
            next: self.next@,
            hold: self.hold@,
            active: self.active@,
            score: self.score@,
            step: self.step@,
            options: self.options,
            objective: self.objective,
            elapsed: self.elapsed@,
            mode: self.mode,
            cursor: self.cursor,
            state: self.state,
            scored: effect_views(self.scored@),
        }
    }
}

/// A timer over `duration` that has not run yet.
pub open spec fn fresh_timer(duration: nat) -> TimerView {
    TimerView { duration, elapsed: 0, finished: false, just_finished: false }
}

/// The state of a round that was in `state` and is judged `verdict`.
pub open spec fn judged(state: RoundState, verdict: RoundOutcome) -> RoundState {
    match verdict {
        RoundOutcome::InProgress => state,
        RoundOutcome::Win => RoundState::Won,
        RoundOutcome::Lose => RoundState::Lost,
    }
}

/// The round `pre` with `piece` as its active piece and the board styled
/// for it.
pub open spec fn with_active(pre: RoundView, piece: ActiveView) -> RoundView {
    RoundView { active: piece, board: restyle_all(pre.board, piece), ..pre }
}

/// The piece that comes into play in the round `pre`: where the last piece
/// was and turned like it when the keyboard steers, at the pointer and
/// unturned when the pointer does, with a fresh timer for the round's step.
pub open spec fn incoming(pre: RoundView, pattern: PatternView, unswappable: bool) -> ActiveView {
    ActiveView {
        pattern,
        x: if pre.mode is Keyboard {
            pre.active.x
        } else {
            pre.cursor.0 as int
        },
        y: if pre.mode is Keyboard {
            pre.active.y
        } else {
            pre.cursor.1 as int
        },
        turns: if pre.mode is Keyboard {
            pre.active.turns
        } else {
            0
        },
        timer: fresh_timer(duration_at(pre.step as int, pre.options.timer_rate) as nat),
        unswappable,
    }
}

/// The round `pre` after a piece of `pattern` has taken the active piece's
/// place.
pub open spec fn spawned(pre: RoundView, pattern: PatternView, unswappable: bool) -> RoundView {
    with_active(pre, incoming(pre, pattern, unswappable))
}

/// The round `pre` after a turn of the active piece, which only an active
/// round that allows rotation takes.
pub open spec fn rotated(pre: RoundView, by: Turn) -> RoundView {
    if pre.state is Active && pre.options.can_rotate {
        with_active(pre, ActiveView { turns: turn_once(pre.active.turns, by), ..pre.active })
    } else {
        pre
    }
}

/// The round `pre` after the active piece was moved by `(dx, dy)` cells, as
/// far as coordinates go; the keyboard steers from then on. Only an active
/// round moves its piece.
pub open spec fn nudged(pre: RoundView, dx: isize, dy: isize) -> RoundView {
    if pre.state is Active {
        with_active(
            RoundView { mode: ActivePositionMode::Keyboard, ..pre },
            ActiveView {
                x: clamped(pre.active.x + dx),
                y: clamped(pre.active.y + dy),
                ..pre.active
            },
        )
    } else {
        pre
    }
}

/// The round `pre` after the active piece was put at `(x, y)`, where the
/// pointer is; the pointer steers from then on. Only an active round moves
/// its piece.
pub open spec fn pointed(pre: RoundView, x: isize, y: isize) -> RoundView {
    if pre.state is Active {
        with_active(
            RoundView { mode: ActivePositionMode::Mouse, cursor: (x, y), ..pre },
            ActiveView { x: x as int, y: y as int, ..pre.active },
        )
    } else {
        pre
    }
}

/// Whether a swap with the hold is taken: the round is active and the
/// active piece did not itself come out of a swap.
pub open spec fn may_swap(pre: RoundView) -> bool {
    pre.state is Active && !pre.active.unswappable
}

/// The round `pre` after a swap with the hold. The active pattern goes into
/// the hold; what was held, or else the next pattern in line, comes into
/// play and cannot be swapped again.
pub open spec fn swapped(pre: RoundView) -> RoundView {
    if may_swap(pre) {
        let pattern = match pre.hold {
            Some(held) => held,
            None => pre.patterns[pre.next as int],
        };
        spawned(RoundView { hold: Some(pre.active.pattern), ..pre }, pattern, true)
    } else {
        pre
    }
}

/// The round `pre` after its active piece was committed, the bag having
/// become `bag` by handing out `next`. The hovered cells are filled, the
/// scoring rule clears what it clears, every cleared cell counts one point
/// and leaves a decoration, the step counter goes up, the pattern that was
/// next comes into play, and the objective is judged.
pub open spec fn committed(pre: RoundView, bag: BagView, next: PatternId) -> RoundView {
    let placed = fill_all(pre.board, pre.active.pattern.color);
    let cells = cleared(placed, pre.options.scorer);
    let points = pre.score + cells.len();
    let stepped = RoundView {
        board: clear_all(placed, cells),
        scored: pre.scored + decorations(placed, cells, placed.len() as int),
        score: points,
        step: pre.step + 1,
        state: judged(pre.state, outcome(pre.objective, pre.elapsed, points)),
        ..pre
    };
    let respawned = spawned(stepped, pre.patterns[pre.next as int], false);
    RoundView { bag, next, ..respawned }
}

/// The round `pre` with `delta` more on its clock, on the active piece's
/// timer and on the decorations.
pub open spec fn aged(pre: RoundView, delta: nat) -> RoundView {
    RoundView {
        elapsed: saturate((pre.elapsed + delta) as int),
        scored: faded(pre.scored, delta),
        active: ActiveView { timer: ticked(pre.active.timer, delta), ..pre.active },
        ..pre
    }
}

/// Whether a pattern called `name` is in play under the names `wanted`:
/// every pattern is where no names are given.
pub open spec fn allowed(wanted: Option<Vec<String>>, name: Seq<char>) -> bool {
    match wanted {
        None => true,
        Some(names) => exists|k: int| 0 <= k < names@.len() && (#[trigger] names@[k])@ == name,
    }
}

/// `pool` holds the places of the allowed patterns, each once, rising.
pub open spec fn is_pool(
    pool: Seq<PatternId>,
    patterns: Seq<PatternView>,
    wanted: Option<Vec<String>>,
) -> bool {
    &&& forall|a: int, b: int| 0 <= a < b < pool.len() ==> pool[a] < pool[b]
    &&& forall|i: int|
        0 <= i < patterns.len() ==> (pool.contains(i as usize) <==> allowed(
            wanted,
            (#[trigger] patterns[i]).name,
        ))
    &&& forall|a: int| 0 <= a < pool.len() ==> (#[trigger] pool[a]) < patterns.len()
}

/// The piece a round starts with: at the origin when the keyboard steers,
/// at the pointer otherwise, unturned, with the timer of step zero.
pub open spec fn opening(
    pattern: PatternView,
    options: GameOptions,
    mode: ActivePositionMode,
    cursor: (isize, isize),
) -> ActiveView {
    ActiveView {
        pattern,
        x: if mode is Keyboard {
            0
        } else {
            cursor.0 as int
        },
        y: if mode is Keyboard {
            0
        } else {
            cursor.1 as int
        },
        turns: 0,
        timer: fresh_timer(duration_at(0, options.timer_rate) as nat),
        unswappable: false,
    }
}

/// `round` is a round at its start. Its board is `base`, the board of the
/// map with the coordinates `cells`, styled for the active piece. Its bag
/// was made over `pool`, the allowed patterns, and has been drawn from
/// twice, with `mid` between the draws: the first draw, `first`, is in play
/// and the second is next in line. Nothing is scored, held or played yet.
pub open spec fn started(
    round: RoundView,
    cells: Seq<(isize, isize)>,
    base: Seq<Tile>,
    pool: Seq<PatternId>,
    first: PatternId,
    mid: BagView,
) -> bool {
    let piece = opening(round.patterns[first as int], round.options, round.mode, round.cursor);
    &&& laid_out(base, cells)
    &&& is_pool(pool, round.patterns, round.options.patterns)
    &&& draws(BagView { pool, queue: Seq::empty() }, mid, first)
    &&& draws(mid, round.bag, round.next)
    &&& round.board == restyle_all(base, piece)
    &&& round.active == piece
    &&& round.hold is None
    &&& round.score == 0
    &&& round.step == 0
    &&& round.elapsed == 0
    &&& round.state is Active
    &&& round.scored.len() == 0
}

/// Whether the name `name` is among `names`.
fn names_hold(names: &Vec<String>, name: &String) -> (b: bool)
    ensures
        b == exists|k: int| 0 <= k < names@.len() && (#[trigger] names@[k])@ == name@,
{
    let mut k: usize = 0;
    while k < names.len()
        invariant
            k <= names.len(),
            forall|j: int| 0 <= j < k ==> (#[trigger] names@[j])@ != name@,
        decreases names.len() - k,
    {
        if names[k] == *name {
            return true;
        }
        k += 1;
    }
    false
}

/// The places of the patterns that are in play under `wanted`.
pub fn pool_of(patterns: &Vec<Pattern>, wanted: &Option<Vec<String>>) -> (pool: Vec<PatternId>)
    ensures
        is_pool(pool@, views_of(patterns@), *wanted),
{
    let mut pool: Vec<PatternId> = Vec::new();
    let mut i: usize = 0;
    while i < patterns.len()
        invariant
            i <= patterns.len(),
            forall|a: int, b: int| 0 <= a < b < pool.len() ==> pool[a] < pool[b],
            forall|a: int| 0 <= a < pool.len() ==> (#[trigger] pool[a]) < i,
            forall|j: int|
                0 <= j < i ==> (pool@.contains(j as usize) <==> allowed(
                    *wanted,
                    (#[trigger] patterns@[j])@.name,
                )),
        decreases patterns.len() - i,
    {
        let take: bool = match wanted {
            None => true,
            Some(names) => names_hold(names, &patterns[i].name),
        };
        let ghost before = pool@;
        if take {
            pool.push(i);
            proof {
                assert(pool@[before.len() as int] == i);
                assert forall|j: int| 0 <= j < i + 1 implies (pool@.contains(j as usize) <==> allowed(
                    *wanted,
                    (#[trigger] patterns@[j])@.name,
                )) by {
                    if j < i {
                        if before.contains(j as usize) {
                            let k = choose|k: int| 0 <= k < before.len() && before[k] == j as usize;
                            assert(pool@[k] == j as usize);
                        }
                    }
                }
            }
        } else {
            proof {
                assert(!pool@.contains(i));
            }
        }
        i += 1;
    }
    proof {
        assert forall|j: int| 0 <= j < patterns@.len() implies (pool@.contains(j as usize) <==> allowed(
            *wanted,
            (#[trigger] views_of(patterns@)[j]).name,
        )) by {
            assert(views_of(patterns@)[j] == patterns@[j]@);
        }
    }
    pool
}

/// A commit raises the step counter by one and the score by the number of
/// cells it clears, so it lowers neither; the passing of time changes
/// neither.
pub proof fn lemma_counters_only_rise(pre: RoundView, bag: BagView, next: PatternId, delta: nat)
    ensures
        committed(pre, bag, next).step == pre.step + 1,
        committed(pre, bag, next).score == pre.score + cleared(
            fill_all(pre.board, pre.active.pattern.color),
            pre.options.scorer,
        ).len(),
        committed(pre, bag, next).score >= pre.score,
        aged(pre, delta).step == pre.step,
        aged(pre, delta).score == pre.score,
{
}

/// A round that is won or lost stays as it is, whatever the player asks
/// for.
pub proof fn lemma_over_is_over(pre: RoundView, by: Turn, dx: isize, dy: isize)
    requires
        !(pre.state is Active),
    ensures
        rotated(pre, by) == pre,
        nudged(pre, dx, dy) == pre,
        pointed(pre, dx, dy) == pre,
        swapped(pre) == pre,
{
}

/// A piece that cannot be swapped stays in play when a swap is asked for,
/// and nothing else changes either; and the piece that a swap brings into
/// play is such a piece. One that a commit brings into play is not.
pub proof fn lemma_swap_guard(pre: RoundView, bag: BagView, next: PatternId)
    ensures
        pre.active.unswappable ==> swapped(pre) == pre,
        may_swap(pre) ==> swapped(pre).active.unswappable && swapped(swapped(pre)) == swapped(pre),
        !committed(pre, bag, next).active.unswappable,
{
}

impl RoundView {
    /// The parts of the round are well formed and fit together: every id
    /// the bag can hand out, and the next one in line, names a pattern.
    pub open spec fn sound(self) -> bool {
        &&& board_wf(self.board)
        &&& self.bag.wf()
        &&& forall|id: PatternId| self.bag.pool.contains(id) ==> id < self.patterns.len()
        &&& self.bag.pool.contains(self.next)
        &&& self.active.wf()
        &&& effects_wf(self.scored)
    }

    /// The round is sound and its tiles are styled for the active piece.
    pub open spec fn wf(self) -> bool {
        &&& self.sound()
        &&& styled(self.board, self.active)
    }

    /// The counters have room for one more commit.
    pub open spec fn has_room(self) -> bool {
        &&& self.step < usize::MAX
        &&& self.score + self.board.len() <= usize::MAX
    }
}

impl RoundContext {
    /// The round's view is well formed.
    pub open spec fn wf(&self) -> bool {
        self@.wf()
    }

    /// Sets a round up: the board of `map`, a bag over the patterns that
    /// the options allow, the first draw in play and the second next in
    /// line, the hold empty, score and steps at zero. Where the options
    /// allow none of the patterns, no round can be played.
    pub fn setup(
        map: &MapAsset,
        patterns: Vec<Pattern>,
        options: GameOptions,
        objective: Objective,
        mode: ActivePositionMode,
        cursor: (isize, isize),
    ) -> (r: Result<RoundContext, ConfigurationError>)
        ensures
            match r {
                Ok(round) => {
                    &&& round.wf()
                    &&& round@.patterns == views_of(patterns@)
                    &&& round@.options == options
                    &&& round@.objective == objective
                    &&& round@.mode == mode
                    &&& round@.cursor == cursor
                    &&& exists|base: Seq<Tile>, pool: Seq<PatternId>, first: PatternId, mid: BagView| #[trigger]
                        started(round@, map.pattern@, base, pool, first, mid)
                },
                Err(e) => {
                    &&& e == ConfigurationError::EmptyPatternPool
                    &&& forall|i: int|
                        0 <= i < patterns@.len() ==> !allowed(
                            options.patterns,
                            (#[trigger] patterns@[i])@.name,
                        )
                },
            },
    {
        let pool = pool_of(&patterns, &options.patterns);
        let ghost pool0 = pool@;
        match Bag::new(pool) {
            Err(e) => {
                proof {
                    assert forall|i: int| 0 <= i < patterns@.len() implies !allowed(
                        options.patterns,
                        (#[trigger] patterns@[i])@.name,
                    ) by {
                        assert(views_of(patterns@)[i] == patterns@[i]@);
                        assert(!pool0.contains(i as usize));
                    }
                }
                Err(e)
            },
            Ok(bag) => {
                let mut bag = bag;
                let ghost start = bag@;
                let first = bag.draw();
                let ghost mid = bag@;
                proof {
                    lemma_reordered_members(start.pool, mid.pool);
                    assert(start.queue =~= Seq::empty());
                }
                let next = bag.draw();
                proof {
                    lemma_reordered_members(mid.pool, bag@.pool);
                    assert(pool0.contains(first));
                    assert(pool0.contains(next));
                }
                let board = GameBoard::from_map(map);
                let ghost base = board@;
                let step = Step::new();
                let timer = step.create_timer(&options);
                let x: isize = match mode {
                    ActivePositionMode::Keyboard => 0,
                    ActivePositionMode::Mouse => cursor.0,
                };
                let y: isize = match mode {
                    ActivePositionMode::Keyboard => 0,
                    ActivePositionMode::Mouse => cursor.1,
                };
                let active = ActiveEntity::new(patterns[first].duplicate(), x, y, 0, timer, false);
                let mut round = RoundContext {
                    board,
                    patterns,
                    bag,
                    next: NextUp::new(next),
                    hold: Hold::new(),
                    active,
                    score: Score::new(),
                    step,
                    options,
                    objective,
                    elapsed: Span::zero(),
                    mode,
                    cursor,
                    state: RoundState::Active,
                    scored: Vec::new(),
                };
                round.board.restyle(&round.active);
                proof {
                    assert(started(round@, map.pattern@, base, pool0, first, mid));
                }
                Ok(round)
            },
        }
    }

    /// Where the round is in its life.
    pub fn state(&self) -> (s: RoundState)
        ensures
            s == self@.state,
    {
        self.state
    }

    /// Whether the counters have room for one more commit.
    pub fn has_room(&self) -> (b: bool)
        ensures
            b == self@.has_room(),
    {
        self.step.current() < usize::MAX && self.score.value() <= usize::MAX - self.board.len()
    }

    /// How the round ended, once it has.
    pub fn result(&self) -> (r: Option<GameResult>)
        ensures
            r == match self@.state {
                RoundState::Active => None,
                RoundState::Won => Some(GameResult::Win),
                RoundState::Lost => Some(GameResult::Lose),
            },
    {
        match self.state {
            RoundState::Active => None,
            RoundState::Won => Some(GameResult::Win),
            RoundState::Lost => Some(GameResult::Lose),
        }
    }

    /// What is known of the game once the round is over; `None` while it
    /// is played.
    pub fn post_game(&self, game_type: GameType) -> (r: Option<
        PostGameDetails,
    >)
        ensures
            r == match self@.state {
                RoundState::Active => None,
                RoundState::Won => Some(
                    PostGameDetails {
                        game_type,
                        score: self@.score as usize,
                        result: GameResult::Win,
                    },
                ),
                RoundState::Lost => Some(
                    PostGameDetails {
                        game_type,
                        score: self@.score as usize,
                        result: GameResult::Lose,
                    },
                ),
            },
    {
        match self.result() {
            Some(result) => Some(
                PostGameDetails { game_type, score: self.score.value(), result },
            ),
            None => None,
        }
    }

    /// The board.
    pub fn board(&self) -> (b: &GameBoard)
        ensures
            b@ == self@.board,
    {
        &self.board
    }

    /// The active piece.
    pub fn active(&self) -> (a: &ActiveEntity)
        ensures
            a@ == self@.active,
    {
        &self.active
    }

    /// The pattern next in line.
    pub fn next(&self) -> (id: PatternId)
        ensures
            id == self@.next,
    {
        self.next.get()
    }

    /// The hold.
    pub fn hold(&self) -> (h: &Hold)
        ensures
            h@ == self@.hold,
    {
        &self.hold
    }

    /// The points so far.
    pub fn score(&self) -> (n: usize)
        ensures
            n == self@.score,
    {
        self.score.value()
    }

    /// The number of pieces committed so far.
    pub fn step(&self) -> (n: usize)
        ensures
            n == self@.step,
    {
        self.step.current()
    }

    /// How far the timer's ramp has come; `None` where it never ends.
    pub fn speed(&self) -> (p: Option<Ratio>)
        ensures
            p == progress_at(self@.step as int, self@.options.timer_rate),
    {
        self.step.percent(&self.options)
    }

    /// The time played.
    pub fn elapsed(&self) -> (t: Span)
        ensures
            t@ == self@.elapsed,
    {
        self.elapsed
    }

    /// The decorations where cells were cleared, oldest first.
    pub fn scored(&self) -> (effects: &Vec<Scored>)
        ensures
            effect_views(effects@) == self@.scored,
    {
        &self.scored
    }

    /// The patterns of the game.
    pub fn patterns(&self) -> (p: &Vec<Pattern>)
        ensures
            views_of(p@) == self@.patterns,
    {
        &self.patterns
    }

    /// The round's objective.
    pub fn objective(&self) -> (o: Objective)
        ensures
            o == self@.objective,
    {
        self.objective
    }

    /// The device that steers the active piece.
    pub fn mode(&self) -> (m: ActivePositionMode)
        ensures
            m == self@.mode,
    {
        self.mode
    }

    /// Where the pointer was last seen.
    pub fn cursor(&self) -> (c: (isize, isize))
        ensures
            c == self@.cursor,
    {
        self.cursor
    }

    /// The round's options.
    pub fn options(&self) -> (o: &GameOptions)
        ensures
            *o == self@.options,
    {
        &self.options
    }

    /// Brings a piece of `pattern` into play in place of the active one.
    fn place(&mut self, pattern: Pattern, unswappable: bool)
        requires
            old(self)@.active.wf(),
        ensures
            final(self)@ == spawned(old(self)@, pattern@, unswappable),
    {
        let at = self.active.position();
        let turns: u8 = match self.mode {
            ActivePositionMode::Keyboard => self.active.turns(),
            ActivePositionMode::Mouse => 0,
        };
        let x: isize = match self.mode {
            ActivePositionMode::Keyboard => at.0,
            ActivePositionMode::Mouse => self.cursor.0,
        };
        let y: isize = match self.mode {
            ActivePositionMode::Keyboard => at.1,
            ActivePositionMode::Mouse => self.cursor.1,
        };
        let timer = self.step.create_timer(&self.options);
        self.active = ActiveEntity::new(pattern, x, y, turns, timer, unswappable);
        self.board.restyle(&self.active);
    }

    /// Brings a piece of `pattern` into play in place of the active one, as
    /// long as the round is active.
    pub fn spawn(&mut self, pattern: Pattern, unswappable: bool)
        requires
            old(self).wf(),
        ensures
            final(self).wf(),
            final(self)@ == (if old(self)@.state is Active {
                spawned(old(self)@, pattern@, unswappable)
            } else {
                old(self)@
            }),
    {
        match self.state {
            RoundState::Active => {
                self.place(pattern, unswappable);
            },
            _ => {},
        }
    }

    /// Turns the active piece by a quarter, where the round allows it.
    /// Says whether it did.
    pub fn rotate(&mut self, by: Turn) -> (turned: bool)
        requires
            old(self).wf(),
        ensures
            final(self).wf(),
            final(self)@ == rotated(old(self)@, by),
            turned == (old(self)@.state is Active && old(self)@.options.can_rotate),
    {
        match self.state {
            RoundState::Active => {
                if self.options.can_rotate {
                    self.active.rotate(by);
                    self.board.restyle(&self.active);
                    true
                } else {
                    false
                }
            },
            _ => false,
        }
    }

    /// Moves the active piece by `(dx, dy)` cells, as far as coordinates
    /// go; the keyboard steers from now on.
    pub fn nudge(&mut self, dx: isize, dy: isize)
        requires
            old(self).wf(),
        ensures
            final(self).wf(),
            final(self)@ == nudged(old(self)@, dx, dy),
    {
        match self.state {
            RoundState::Active => {
                self.mode = ActivePositionMode::Keyboard;
                self.active.move_by(dx, dy);
                self.board.restyle(&self.active);
            },
            _ => {},
        }
    }

    /// Puts the active piece where the pointer is, at `(x, y)`; the pointer
    /// steers from now on.
    pub fn point(&mut self, x: isize, y: isize)
        requires
            old(self).wf(),
        ensures
            final(self).wf(),
            final(self)@ == pointed(old(self)@, x, y),
    {
        match self.state {
            RoundState::Active => {
                self.mode = ActivePositionMode::Mouse;
                self.cursor = (x, y);
                self.active.move_to(x, y);
                self.board.restyle(&self.active);
            },
            _ => {},
        }
    }

    /// Swaps the active piece with the hold, unless the active piece came
    /// out of a swap itself. Says whether it swapped.
    pub fn hold_swap(&mut self) -> (done: bool)
        requires
            old(self).wf(),
        ensures
            final(self).wf(),
            final(self)@ == swapped(old(self)@),
            done == may_swap(old(self)@),
    {
        match self.state {
            RoundState::Active => {
                if self.active.unswappable() {
                    false
                } else {
                    let outgoing = self.active.pattern().duplicate();
                    let held = self.hold.swap(outgoing);
                    let pattern = match held {
                        Some(p) => p,
                        None => self.patterns[self.next.get()].duplicate(),
                    };
                    self.place(pattern, true);
                    true
                }
            },
            _ => false,
        }
    }

    /// Puts the active piece on the board, which it is known to fit.
    fn settle(&mut self)
        requires
            old(self).wf(),
            old(self)@.has_room(),
            old(self)@.state is Active,
        ensures
            final(self).wf(),
            draws(old(self)@.bag, final(self)@.bag, final(self)@.next),
            final(self)@ == committed(old(self)@, final(self)@.bag, final(self)@.next),
    {
        let color = self.active.pattern().color;
        self.board.fill_hovered(color);
        let cells = score(&self.board, self.options.scorer);
        let ghost placed = self.board@;
        proof {
            assert(Set::new(|i: int| 0 <= i < placed.len() && cells@.contains(i as usize)) =~= cleared(
                placed,
                self.options.scorer,
            ));
            lemma_int_range(0, placed.len() as int);
            lemma_len_subset(
                cleared(placed, self.options.scorer),
                set_int_range(0, placed.len() as int),
            );
        }
        decorate(&mut self.scored, self.board.tiles(), &cells);
        self.board.clear(&cells);
        self.score.gain(cells.len());
        self.step.next();
        match evaluate(self.objective, self.elapsed, self.score.value()) {
            RoundOutcome::InProgress => {},
            RoundOutcome::Win => {
                self.state = RoundState::Won;
            },
            RoundOutcome::Lose => {
                self.state = RoundState::Lost;
            },
        }
        let pattern = self.patterns[self.next.get()].duplicate();
        self.place(pattern, false);
        let ghost pool = self.bag@.pool;
        let id = self.bag.draw();
        proof {
            lemma_reordered_members(pool, self.bag@.pool);
        }
        self.next.set(id);
    }

    /// Tries to commit the active piece where it is. A piece that does not
    /// fit stays in play and nothing changes, unless the attempt is
    /// `forced` by the timer: then the round is lost. A commit that is
    /// taken needs room in the counters.
    pub fn commit(&mut self, forced: bool) -> (r: CommitResult)
        requires
            old(self).wf(),
            old(self)@.state is Active && fits(old(self)@.board, old(self)@.active) ==> old(
                self,
            )@.has_room(),
        ensures
            final(self).wf(),
            r is Committed <==> old(self)@.state is Active && fits(old(self)@.board, old(self)@.active),
            r is Committed ==> draws(old(self)@.bag, final(self)@.bag, final(self)@.next)
                && final(self)@ == committed(old(self)@, final(self)@.bag, final(self)@.next),
            r is Rejected ==> final(self)@ == (if forced && old(self)@.state is Active {
                RoundView { state: RoundState::Lost, ..old(self)@ }
            } else {
                old(self)@
            }),
    {
        match self.state {
            RoundState::Active => {
                if self.board.fits(&self.active) {
                    self.settle();
                    CommitResult::Committed
                } else {
                    if forced {
                        self.state = RoundState::Lost;
                    }
                    CommitResult::Rejected
                }
            },
            _ => CommitResult::Rejected,
        }
    }

    /// Lets `delta` pass. The active piece's timer runs; when it runs out,
    /// the piece is committed where it is, and the round is lost if it does
    /// not fit. Otherwise the objective is judged. A commit that is taken
    /// needs room in the counters.
    pub fn tick(&mut self, delta: Span) -> (s: RoundState)
        requires
            old(self).wf(),
            old(self)@.state is Active && ticked(old(self)@.active.timer, delta@).just_finished
                && fits(old(self)@.board, old(self)@.active) ==> old(self)@.has_room(),
        ensures
            final(self).wf(),
            s == final(self)@.state,
            old(self)@.state is Active && ticked(old(self)@.active.timer, delta@).just_finished
                && !fits(old(self)@.board, old(self)@.active) ==> s is Lost,
            !(old(self)@.state is Active) ==> final(self)@ == old(self)@,
            old(self)@.state is Active ==> {
                let now = aged(old(self)@, delta@);
                if !now.active.timer.just_finished {
                    final(self)@ == (RoundView {
                        state: judged(now.state, outcome(now.objective, now.elapsed, now.score)),
                        ..now
                    })
                } else if fits(now.board, now.active) {
                    draws(now.bag, final(self)@.bag, final(self)@.next) && final(self)@ == committed(
                        now,
                        final(self)@.bag,
                        final(self)@.next,
                    )
                } else {
                    final(self)@ == (RoundView { state: RoundState::Lost, ..now })
                }
            },
    {
        match self.state {
            RoundState::Active => {
                self.elapsed = self.elapsed.saturating_add(delta);
                self.active.tick(delta);
                self.scored = fade(&self.scored, delta);
                proof {
                    assert(self@ == aged(old(self)@, delta@));
                    lemma_timer_keeps_style(old(self)@.board, old(self)@.active, self@.active);
                    lemma_timer_keeps_fit(old(self)@.board, old(self)@.active, self@.active);
                }
                if self.active.timer().just_finished() {
                    let _ = self.commit(true);
                } else {
                    match evaluate(self.objective, self.elapsed, self.score.value()) {
                        RoundOutcome::InProgress => {},
                        RoundOutcome::Win => {
                            self.state = RoundState::Won;
                        },
                        RoundOutcome::Lose => {
                            self.state = RoundState::Lost;
                        },
                    }
                }
            },
            _ => {},
        }
        self.state
    }

    /// Does what the player means to do. Says what became of a commit,
    /// and `None` for anything else. A commit that is taken needs room in
    /// the counters.
    pub fn handle(&mut self, intent: Intent) -> (r: Option<CommitResult>)
        requires
            old(self).wf(),
            intent is Commit && old(self)@.state is Active && fits(
                old(self)@.board,
                old(self)@.active,
            ) ==> old(self)@.has_room(),
        ensures
            final(self).wf(),
            match intent {
                Intent::Rotate(by) => r is None && final(self)@ == rotated(old(self)@, by),
                Intent::MoveBy(dx, dy) => r is None && final(self)@ == nudged(old(self)@, dx, dy),
                Intent::MoveTo(x, y) => r is None && final(self)@ == pointed(old(self)@, x, y),
                Intent::HoldSwap => r is None && final(self)@ == swapped(old(self)@),
                Intent::Commit => {
                    &&& r is Some
                    &&& r->0 is Committed <==> old(self)@.state is Active && fits(
                        old(self)@.board,
                        old(self)@.active,
                    )
                    &&& r->0 is Committed ==> draws(
                        old(self)@.bag,
                        final(self)@.bag,
                        final(self)@.next,
                    ) && final(self)@ == committed(old(self)@, final(self)@.bag, final(self)@.next)
                    &&& r->0 is Rejected ==> final(self)@ == old(self)@
                },
            },
    {
        match intent {
            Intent::Rotate(by) => {
                self.rotate(by);
                None
            },
            Intent::MoveBy(dx, dy) => {
                self.nudge(dx, dy);
                None
            },
            Intent::MoveTo(x, y) => {
                self.point(x, y);
                None
            },
            Intent::HoldSwap => {
                self.hold_swap();
                None
            },
            Intent::Commit => Some(self.commit(false)),
        }
    }

    /// Handles one event of the game. A commit that is taken needs room in
    /// the counters.
    pub fn process_event(&mut self, event: GameEvent) -> (r: Option<CommitResult>)
        requires
            old(self).wf(),
            !(event is SetActivePattern) && old(self)@.state is Active && fits(
                old(self)@.board,
                old(self)@.active,
            ) ==> old(self)@.has_room(),
        ensures
            final(self).wf(),
            match event {
                GameEvent::SetActivePattern { pattern, unswappable } => r is None && final(self)@ == (
                if old(self)@.state is Active {
                    spawned(old(self)@, pattern@, unswappable)
                } else {
                    old(self)@
                }),
                GameEvent::CommitActive => r is Some && (r->0 is Committed <==> old(self)@.state is Active
                    && fits(old(self)@.board, old(self)@.active)) && (r->0 is Committed ==> draws(
                    old(self)@.bag,
                    final(self)@.bag,
                    final(self)@.next,
                ) && final(self)@ == committed(old(self)@, final(self)@.bag, final(self)@.next)) && (r->0
                    is Rejected ==> final(self)@ == old(self)@),
                GameEvent::TimerCommitActive => r is Some && (r->0 is Committed <==> old(self)@.state
                    is Active && fits(old(self)@.board, old(self)@.active)) && (r->0 is Committed
                    ==> draws(old(self)@.bag, final(self)@.bag, final(self)@.next) && final(self)@
                    == committed(old(self)@, final(self)@.bag, final(self)@.next)) && (r->0 is Rejected
                    ==> final(self)@ == (if old(self)@.state is Active {
                    RoundView { state: RoundState::Lost, ..old(self)@ }
                } else {
                    old(self)@
                })),
            },
    {
        match event {
            GameEvent::SetActivePattern { pattern, unswappable } => {
                self.spawn(pattern, unswappable);
                None
            },
            GameEvent::CommitActive => Some(self.commit(false)),
            GameEvent::TimerCommitActive => Some(self.commit(true)),
        }
    }
}

/// A piece that differs from another in its timer alone fits where the
/// other does.
pub proof fn lemma_timer_keeps_fit(tiles: Seq<Tile>, piece: ActiveView, other: ActiveView)
    requires
        other == (ActiveView { timer: other.timer, ..piece }),
    ensures
        fits(tiles, piece) == fits(tiles, other),
{
    assert forall|j: int| piece.cell(j) == other.cell(j) by {}
    if fits(tiles, piece) {
        assert forall|j: int, k: int|
            0 <= j < k < other.pattern.blocks.len() implies #[trigger] other.cell(j) != #[trigger] other.cell(
            k,
        ) by {
            assert(piece.cell(j) != piece.cell(k));
        }
        assert forall|j: int| 0 <= j < other.pattern.blocks.len() implies is_empty_at(
            tiles,
            (#[trigger] other.cell(j)).0,
            other.cell(j).1,
        ) by {
            assert(piece.cell(j) == other.cell(j));
        }
    }
    if fits(tiles, other) {
        assert forall|j: int, k: int|
            0 <= j < k < piece.pattern.blocks.len() implies #[trigger] piece.cell(j) != #[trigger] piece.cell(
            k,
        ) by {
            assert(other.cell(j) != other.cell(k));
        }
        assert forall|j: int| 0 <= j < piece.pattern.blocks.len() implies is_empty_at(
            tiles,
            (#[trigger] piece.cell(j)).0,
            piece.cell(j).1,
        ) by {
            assert(piece.cell(j) == other.cell(j));
        }
    }
}

/// A piece that differs from another in its timer alone covers the same
/// cells, so tiles styled for the one are styled for the other.
pub proof fn lemma_timer_keeps_style(tiles: Seq<Tile>, piece: ActiveView, other: ActiveView)
    requires
        styled(tiles, piece),
        other == (ActiveView { timer: other.timer, ..piece }),
    ensures
        styled(tiles, other),
{
    assert forall|x: int, y: int| piece.covers(x, y) == other.covers(x, y) by {
        if piece.covers(x, y) {
            let j = choose|j: int| 0 <= j < piece.pattern.blocks.len() && #[trigger] piece.cell(j) == (x, y);
            assert(other.cell(j) == (x, y));
        }
        if other.covers(x, y) {
            let j = choose|j: int| 0 <= j < other.pattern.blocks.len() && #[trigger] other.cell(j) == (x, y);
            assert(piece.cell(j) == (x, y));
        }
    }
}

} // verus!
