//! The active piece: the one pattern the player is placing.

use crate::assets::pattern::{Pattern, PatternView};
use crate::components::timer::{ticked, PlacementTimer, TimerView};
use crate::time::Span;
use vstd::prelude::*;

verus! {

/// The way a piece is turned by a quarter.
#[derive(Clone, Copy, Debug, PartialEq, Eq, Structural, Hash)]
pub enum Turn {
    /// Counter-clockwise.
    Left,
    /// Clockwise.
    Right,
}

/// The piece in play: its pattern, where its origin is, how often it has
/// been turned counter-clockwise, its placement timer and whether it came
/// out of the hold.
pub struct ActiveEntity {
    pattern: Pattern,
    x: isize,
    y: isize,
    turns: u8,
    timer: PlacementTimer,
    unswappable: bool,
}

/// What an active piece holds.
pub struct ActiveView {
    pub pattern: PatternView,
    pub x: int,
    pub y: int,
    /// Quarter turns counter-clockwise, from 0 to 3.
    pub turns: int,
    pub timer: TimerView,
    pub unswappable: bool,
}

impl View for ActiveEntity {
    type V = ActiveView;

    closed spec fn view(&self) -> ActiveView {
        ActiveView {
            pattern: self.pattern@,
            x: self.x as int,
            y: self.y as int,
            turns: self.turns as int,
            timer: self.timer@,
            unswappable: self.unswappable,
        }
    }
}

/// The offset `block` after `turns` quarter turns counter-clockwise about
/// the origin.
pub open spec fn turned(block: (isize, isize), turns: int) -> (int, int) {
    let bx = block.0 as int;
    let by = block.1 as int;
    if turns == 0 {
        (bx, by)
    } else if turns == 1 {
        (-by, bx)
    } else if turns == 2 {
        (-bx, -by)
    } else {
        (by, -bx)
    }
}

/// The number of quarter turns after one more turn `by`.
pub open spec fn turn_once(turns: int, by: Turn) -> int {
    match by {
        Turn::Left => (turns + 1) % 4,
        Turn::Right => (turns + 3) % 4,
    }
}

/// The coordinate `a` that is closest to `a` among those a board can have.
pub open spec fn clamped(a: int) -> int {
    if a < isize::MIN {
        isize::MIN as int
    } else if a > isize::MAX {
        isize::MAX as int
    } else {
        a
    }
}

impl ActiveView {
    /// The turn count is one of four and the timer is well formed.
    pub open spec fn wf(self) -> bool {
        &&& 0 <= self.turns < 4
        &&& isize::MIN <= self.x <= isize::MAX
        &&& isize::MIN <= self.y <= isize::MAX
        &&& self.timer.wf()
    }

    /// The board position of the piece's block `j`.
    pub open spec fn cell(self, j: int) -> (int, int) {
        let t = turned(self.pattern.blocks[j], self.turns);
        (self.x + t.0, self.y + t.1)
    }

    /// Whether one of the piece's blocks lies at `(x, y)`.
    pub open spec fn covers(self, x: int, y: int) -> bool {
        exists|j: int| 0 <= j < self.pattern.blocks.len() && #[trigger] self.cell(j) == (x, y)
    }
}

impl ActiveEntity {
    /// The piece's view is well formed.
    pub open spec fn wf(&self) -> bool {
        self@.wf()
    }

    /// A piece of `pattern` with its origin at `(x, y)`, turned `turns`
    /// quarters counter-clockwise.
    pub fn new(
        pattern: Pattern,
        x: isize,
        y: isize,
        turns: u8,
        timer: PlacementTimer,
        unswappable: bool,
    ) -> (a: ActiveEntity)
        requires
            turns < 4,
            timer.wf(),
        ensures
            a.wf(),
            a@ == (ActiveView {
                pattern: pattern@,
                x: x as int,
                y: y as int,
                turns: turns as int,
                timer: timer@,
                unswappable,
            }),
    {
        ActiveEntity { pattern, x, y, turns, timer, unswappable }
    }

    /// The piece's pattern.
    pub fn pattern(&self) -> (p: &Pattern)
        ensures
            p@ == self@.pattern,
    {
        &self.pattern
    }

    /// Gives the pattern up.
    pub fn into_pattern(self) -> (p: Pattern)
        ensures
            p@ == self@.pattern,
    {
        self.pattern
    }

    /// Where the piece's origin is.
    pub fn position(&self) -> (p: (isize, isize))
        ensures
            p.0 == self@.x,
            p.1 == self@.y,
    {
        (self.x, self.y)
    }

    /// The number of quarter turns counter-clockwise.
    pub fn turns(&self) -> (t: u8)
        ensures
            t == self@.turns,
    {
        self.turns
    }

    /// The piece's placement timer.
    pub fn timer(&self) -> (t: PlacementTimer)
        ensures
            t@ == self@.timer,
    {
        self.timer
    }

    /// Whether the piece came out of the hold and so cannot go back.
    pub fn unswappable(&self) -> (b: bool)
        ensures
            b == self@.unswappable,
    {
        self.unswappable
    }

    /// Turns the piece by a quarter about its origin.
    pub fn rotate(&mut self, by: Turn)
        requires
            old(self).wf(),
        ensures
            final(self).wf(),
            final(self)@ == (ActiveView { turns: turn_once(old(self)@.turns, by), ..old(self)@ }),
    {
        self.turns = match by {
            Turn::Left => (self.turns + 1) % 4,
            Turn::Right => (self.turns + 3) % 4,
        };
    }

    /// Puts the piece's origin at `(x, y)`.
    pub fn move_to(&mut self, x: isize, y: isize)
        requires
            old(self).wf(),
        ensures
            final(self).wf(),
            final(self)@ == (ActiveView { x: x as int, y: y as int, ..old(self)@ }),
    {
        self.x = x;
        self.y = y;
    }

    /// Moves the piece's origin by `(dx, dy)`, as far as coordinates go.
    pub fn move_by(&mut self, dx: isize, dy: isize)
        requires
            old(self).wf(),
        ensures
            final(self).wf(),
            final(self)@ == (ActiveView {
                x: clamped(old(self)@.x + dx),
                y: clamped(old(self)@.y + dy),
                ..old(self)@
            }),
    {
        self.x = clamp(self.x as i128 + dx as i128);
        self.y = clamp(self.y as i128 + dy as i128);
    }

    /// Lets `delta` pass on the piece's timer.
    pub fn tick(&mut self, delta: Span)
        requires
            old(self).wf(),
        ensures
            final(self).wf(),
            final(self)@ == (ActiveView { timer: ticked(old(self)@.timer, delta@), ..old(self)@ }),
    {
        self.timer.tick(delta);
    }

    /// The number of blocks of the piece.
    pub fn block_count(&self) -> (n: usize)
        ensures
            n == self@.pattern.blocks.len(),
    {
        self.pattern.blocks.len()
    }

    /// The board position of block `j`. It may lie beyond every board.
    pub fn cell(&self, j: usize) -> (c: (i128, i128))
        requires
            self.wf(),
            j < self@.pattern.blocks.len(),
        ensures
            c.0 == self@.cell(j as int).0,
            c.1 == self@.cell(j as int).1,
    {
        let bx: i128 = self.pattern.blocks[j].0 as i128;
        let by: i128 = self.pattern.blocks[j].1 as i128;
        if self.turns == 0 {
            (self.x as i128 + bx, self.y as i128 + by)
        } else if self.turns == 1 {
            (self.x as i128 - by, self.y as i128 + bx)
        } else if self.turns == 2 {
            (self.x as i128 - bx, self.y as i128 - by)
        } else {
            (self.x as i128 + by, self.y as i128 - bx)
        }
    }

    /// Whether one of the piece's blocks lies at `(x, y)`.
    pub fn covers(&self, x: isize, y: isize) -> (b: bool)
        requires
            self.wf(),
        ensures
            b == self@.covers(x as int, y as int),
    {
        let mut j: usize = 0;
        while j < self.pattern.blocks.len()
            invariant
                j <= self.pattern.blocks.len(),
                self.wf(),
                forall|k: int| 0 <= k < j ==> #[trigger] self@.cell(k) != (x as int, y as int),
            decreases self.pattern.blocks.len() - j,
        {
            let c = self.cell(j);
            if c.0 == x as i128 && c.1 == y as i128 {
                assert(self@.cell(j as int) == (x as int, y as int));
                return true;
            }
            j += 1;
        }
        false
    }
}

/// The coordinate closest to `a`.
fn clamp(a: i128) -> (c: isize)
    ensures
        c == clamped(a as int),
{
    if a < isize::MIN as i128 {
        isize::MIN
    } else if a > isize::MAX as i128 {
        isize::MAX
    } else {
        a as isize
    }
}

} // verus!
