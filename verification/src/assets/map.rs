//! Maps: the cells a board is made of.

use vstd::prelude::*;

verus! {

/// A named list of board coordinates.
#[derive(Clone, Debug, PartialEq, Eq, Hash)]
pub struct MapAsset {
    pub name: String,
    /// The coordinates of the board's cells.
    pub pattern: Vec<(isize, isize)>,
}

/// The smallest of the first (`first`) or second coordinates of `cells`
/// is `m`.
pub open spec fn is_min(cells: Seq<(isize, isize)>, first: bool, m: isize) -> bool {
    &&& exists|i: int| 0 <= i < cells.len() && m == pick(#[trigger] cells[i], first)
    &&& forall|i: int| 0 <= i < cells.len() ==> m <= pick(#[trigger] cells[i], first)
}

/// The largest of the first (`first`) or second coordinates of `cells`
/// is `m`.
pub open spec fn is_max(cells: Seq<(isize, isize)>, first: bool, m: isize) -> bool {
    &&& exists|i: int| 0 <= i < cells.len() && m == pick(#[trigger] cells[i], first)
    &&& forall|i: int| 0 <= i < cells.len() ==> m >= pick(#[trigger] cells[i], first)
}

/// The first or the second coordinate of `cell`.
pub open spec fn pick(cell: (isize, isize), first: bool) -> isize {
    if first {
        cell.0
    } else {
        cell.1
    }
}

impl MapAsset {
    /// The name of the map that is used where none is chosen.
    pub fn default_name() -> (name: &'static str)
        ensures
            name@ == "default"@,
    {
        "default"
    }

    /// The corners of the smallest rectangle that holds every cell: first
    /// the bottom left one, then the top right one.
    pub fn calculate_rect(&self) -> (rect: ((isize, isize), (isize, isize)))
        requires
            self.pattern@.len() > 0,
        ensures
            is_min(self.pattern@, true, rect.0.0),
            is_min(self.pattern@, false, rect.0.1),
            is_max(self.pattern@, true, rect.1.0),
            is_max(self.pattern@, false, rect.1.1),
    {
        let mut left: isize = self.pattern[0].0;
        let mut right: isize = self.pattern[0].0;
        let mut bottom: isize = self.pattern[0].1;
        let mut top: isize = self.pattern[0].1;
        let mut i: usize = 1;
        proof {
            let one = self.pattern@.take(1);
            assert(one[0] == self.pattern@[0]);
            assert(pick(one[0], true) == left && pick(one[0], false) == bottom);
        }
        while i < self.pattern.len()
            invariant
                1 <= i <= self.pattern.len(),
                is_min(self.pattern@.take(i as int), true, left),
                is_min(self.pattern@.take(i as int), false, bottom),
                is_max(self.pattern@.take(i as int), true, right),
                is_max(self.pattern@.take(i as int), false, top),
            decreases self.pattern.len() - i,
        {
            let ghost seen = self.pattern@.take(i as int);
            let ghost more = self.pattern@.take(i + 1);
            let x: isize = self.pattern[i].0;
            let y: isize = self.pattern[i].1;
            proof {
                assert(more[i as int] == (x, y));
                assert(forall|k: int| 0 <= k < i ==> more[k] == seen[k]);
                let a = choose|a: int| 0 <= a < seen.len() && left == pick(#[trigger] seen[a], true);
                assert(more[a] == seen[a]);
                let b = choose|b: int| 0 <= b < seen.len() && bottom == pick(#[trigger] seen[b], false);
                assert(more[b] == seen[b]);
                let c = choose|c: int| 0 <= c < seen.len() && right == pick(#[trigger] seen[c], true);
                assert(more[c] == seen[c]);
                let d = choose|d: int| 0 <= d < seen.len() && top == pick(#[trigger] seen[d], false);
                assert(more[d] == seen[d]);
            }
            if x < left {
                left = x;
            }
            if x > right {
                right = x;
            }
            if y < bottom {
                bottom = y;
            }
            if y > top {
                top = y;
            }
            i += 1;
        }
        proof {
            assert(self.pattern@.take(i as int) =~= self.pattern@);
        }
        ((left, bottom), (right, top))
    }
}

} // verus!
